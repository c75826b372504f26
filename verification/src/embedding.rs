//! The OpenAI-compatible embedding client of the local runtime: checking its
//! inputs, building the request and the command that carries it, and
//! completing the runtime's reply to the shape OpenAI clients read.

use vstd::prelude::*;
use vstd::string::*;
use crate::json::{
    copy_json, json_members_view, json_seq_view, json_str, json_text, json_to_string,
    lemma_json_members_view, lemma_json_seq_view, lemma_member_set_at, member_get, member_set,
    object1, object2, json_parse, parse_json, JsonV, JsonValue,
};
use crate::text::{chars_of, text_eq, text_string};

verus! {

broadcast use vstd::std_specs::vec::group_vec_axioms;

// ── Input checks ─────────────────────────────────────────────────────────────

/// A character with the Unicode `White_Space` property (what
/// `char::is_whitespace`, and so `str::trim`, takes for white space).
pub open spec fn is_white_space(c: char) -> bool {
    let u = c as u32;
    ||| 0x09 <= u <= 0x0d
    ||| u == 0x20
    ||| u == 0x85
    ||| u == 0xa0
    ||| u == 0x1680
    ||| 0x2000 <= u <= 0x200a
    ||| u == 0x2028
    ||| u == 0x2029
    ||| u == 0x202f
    ||| u == 0x205f
    ||| u == 0x3000
}

/// Whether `c` is white space.
pub fn white_space(c: char) -> (r: bool)
    ensures
        r == is_white_space(c),
{
    let u = c as u32;
    (0x09 <= u && u <= 0x0d) || u == 0x20 || u == 0x85 || u == 0xa0 || u == 0x1680 || (0x2000 <= u
        && u <= 0x200a) || u == 0x2028 || u == 0x2029 || u == 0x202f || u == 0x205f || u == 0x3000
}

/// A text that holds nothing but white space, so that trimming leaves it
/// empty.
pub open spec fn is_blank(s: Seq<char>) -> bool {
    forall|i: int| 0 <= i < s.len() ==> is_white_space(#[trigger] s[i])
}

/// An error of the local runtime's client.
#[derive(Debug)]
pub enum FoundryLocalError {
    /// A request that the client refuses before sending it.
    Validation { reason: String },
}

/// The error refusing `reason`.
pub open spec fn validation_error(e: FoundryLocalError, reason: Seq<char>) -> bool {
    match e {
        FoundryLocalError::Validation { reason: r } => r@ == reason,
    }
}

/// The reason given for a blank input.
pub open spec fn blank_input_reason() -> Seq<char> {
    "input must be a non-empty string"@
}

/// The reason given for an empty list of inputs.
pub open spec fn no_inputs_reason() -> Seq<char> {
    "inputs must be a non-empty array"@
}

// ── Requests ─────────────────────────────────────────────────────────────────

/// The embedding request for `input` to model `model_id`.
pub open spec fn embedding_request(model_id: Seq<char>, input: JsonV) -> JsonV {
    JsonV::Object(seq![("model"@, JsonV::Str(model_id)), ("input"@, input)])
}

/// The parameters of the runtime's `embeddings` command that carry
/// `request`, written out as JSON text.
pub open spec fn command_params_of(request: JsonV) -> JsonV {
    JsonV::Object(
        seq![("Params"@, JsonV::Object(seq![("OpenAICreateRequest"@, JsonV::Str(json_text(request)))]))],
    )
}

/// A list of texts as a JSON array of strings.
pub open spec fn string_array(inputs: Seq<Seq<char>>) -> JsonV {
    JsonV::Array(inputs.map_values(|s: Seq<char>| JsonV::Str(s)))
}

/// Client for OpenAI-compatible embedding generation backed by a local model.
#[derive(Debug)]
pub struct EmbeddingClient {
    pub model_id: String,
}

impl EmbeddingClient {
    /// A client for model `model_id`.
    pub fn new(model_id: &str) -> (r: Self)
        ensures
            r.model_id@ == model_id@,
    {
        EmbeddingClient { model_id: text_string(model_id) }
    }

    /// Refuses an input that is empty once trimmed of white space.
    pub fn validate_input(input: &str) -> (r: Result<(), FoundryLocalError>)
        ensures
            r is Err <==> is_blank(input@),
            r matches Err(e) ==> validation_error(e, blank_input_reason()),
    {
        let cs = chars_of(input);
        let mut i: usize = 0;
        while i < cs.len()
            invariant
                cs@ == input@,
                i <= cs.len(),
                forall|k: int| 0 <= k < i ==> is_white_space(#[trigger] cs@[k]),
            decreases cs.len() - i,
        {
            if !white_space(cs[i]) {
                return Ok(());
            }
            i = i + 1;
        }
        proof {
            reveal_strlit("input must be a non-empty string");
        }
        Err(FoundryLocalError::Validation { reason: text_string("input must be a non-empty string") })
    }

    /// The request body: the model and the input.
    pub fn build_request(&self, input: JsonValue) -> (r: JsonValue)
        ensures
            r@ == embedding_request(self.model_id@, input@),
    {
        object2("model", JsonValue::Str(self.model_id.clone()), "input", input)
    }

    /// The command that asks the runtime for the embedding of one input.
    pub fn embedding_command(&self, input: &str) -> (r: Result<JsonValue, FoundryLocalError>)
        ensures
            r is Err <==> is_blank(input@),
            match r {
                Ok(c) => c@ == command_params_of(embedding_request(self.model_id@, JsonV::Str(input@))),
                Err(e) => validation_error(e, blank_input_reason()),
            },
    {
        match Self::validate_input(input) {
            Err(e) => Err(e),
            Ok(()) => {
                let request = self.build_request(json_str(input));
                Ok(command_params(&request))
            },
        }
    }

    /// The command that asks the runtime for the embeddings of several
    /// inputs in one request.
    pub fn embeddings_command(&self, inputs: &[&str]) -> (r: Result<JsonValue, FoundryLocalError>)
        ensures
            r is Err <==> (inputs@.len() == 0 || exists|i: int| 0 <= i < inputs@.len() && is_blank(#[trigger] inputs@[i]@)),
            match r {
                Ok(c) => c@ == command_params_of(
                    embedding_request(self.model_id@, string_array(inputs@.map_values(|s: &str| s@))),
                ),
                Err(e) => if inputs@.len() == 0 {
                    validation_error(e, no_inputs_reason())
                } else {
                    validation_error(e, blank_input_reason())
                },
            },
    {
        broadcast use lemma_json_seq_view;

        if inputs.len() == 0 {
            proof {
                reveal_strlit("inputs must be a non-empty array");
            }
            return Err(FoundryLocalError::Validation { reason: text_string("inputs must be a non-empty array") });
        }
        let ghost texts = inputs@.map_values(|s: &str| s@);
        let mut items: Vec<JsonValue> = Vec::new();
        let mut i: usize = 0;
        while i < inputs.len()
            invariant
                texts == inputs@.map_values(|s: &str| s@),
                i <= inputs@.len(),
                items@.len() == i,
                forall|k: int| 0 <= k < i ==> !is_blank(#[trigger] inputs@[k]@),
                forall|k: int| 0 <= k < i ==> (#[trigger] items@[k])@ == JsonV::Str(texts[k]),
            decreases inputs@.len() - i,
        {
            let s: &str = inputs[i];
            match Self::validate_input(s) {
                Err(e) => {
                    return Err(e);
                },
                Ok(()) => {},
            }
            items.push(json_str(s));
            i = i + 1;
        }
        let ghost iv = items@;
        let arr = JsonValue::Array(items);
        assert(json_seq_view(iv) =~= texts.map_values(|s: Seq<char>| JsonV::Str(s)));
        let request = self.build_request(arr);
        Ok(command_params(&request))
    }
}

/// The parameters of the runtime's `embeddings` command carrying `request`.
pub fn command_params(request: &JsonValue) -> (r: JsonValue)
    ensures
        r@ == command_params_of(request@),
{
    let text = json_to_string(request);
    object1("Params", object1("OpenAICreateRequest", JsonValue::Str(text)))
}

// ── Replies ──────────────────────────────────────────────────────────────────

/// `members` with `key` set to `value` unless it already has a member `key`.
pub open spec fn member_or_insert(
    members: Seq<(Seq<char>, JsonV)>,
    key: Seq<char>,
    value: JsonV,
) -> Seq<(Seq<char>, JsonV)> {
    if member_get(members, key) is Some {
        members
    } else {
        members.push((key, value))
    }
}

/// The runtime's raw reply to an embedding request, read as JSON and
/// completed (see `completed_response`); `None` where the reply is not JSON.
pub fn embedding_reply(raw: &str) -> (r: Option<JsonValue>)
    ensures
        r.deep_view() == (match json_parse(raw@) {
            Some(v) => Some(completed_response(v)),
            None => None::<JsonV>,
        }),
{
    match parse_json(raw) {
        Some(v) => Some(complete_embedding_response(v)),
        None => None,
    }
}

/// The token usage a reply reports where the runtime gives none.
pub open spec fn default_usage() -> JsonV {
    JsonV::Object(seq![("prompt_tokens"@, JsonV::Number("0"@)), ("total_tokens"@, JsonV::Number("0"@))])
}

/// An embedding item with its `object` member, `"embedding"` where it has
/// none; other values as they are.
pub open spec fn completed_item(item: JsonV) -> JsonV {
    match item {
        JsonV::Object(m) => JsonV::Object(member_or_insert(m, "object"@, JsonV::Str("embedding"@))),
        _ => item,
    }
}

/// The runtime's reply with the two members that OpenAI's reply has and the
/// runtime leaves out: `object` on each item of `data`, and `usage` at the
/// top.
pub open spec fn completed_response(v: JsonV) -> JsonV {
    match v {
        JsonV::Object(m) => {
            let m1 = match member_get(m, "data"@) {
                Some(JsonV::Array(items)) => member_set(
                    m,
                    "data"@,
                    JsonV::Array(items.map_values(|x: JsonV| completed_item(x))),
                ),
                _ => m,
            };
            JsonV::Object(member_or_insert(m1, "usage"@, default_usage()))
        },
        _ => v,
    }
}

/// The position of the first member named `key`.
fn member_index(m: &Vec<(String, JsonValue)>, key: &str) -> (r: Option<usize>)
    ensures
        match r {
            Some(i) => i < m@.len() && m@[i as int].0@ == key@ && forall|k: int|
                0 <= k < i ==> (#[trigger] m@[k]).0@ != key@,
            None => forall|k: int| 0 <= k < m@.len() ==> (#[trigger] m@[k]).0@ != key@,
        },
{
    let mut i: usize = 0;
    while i < m.len()
        invariant
            i <= m@.len(),
            forall|k: int| 0 <= k < i ==> (#[trigger] m@[k]).0@ != key@,
        decreases m@.len() - i,
    {
        if text_eq(m[i].0.as_str(), key) {
            return Some(i);
        }
        i = i + 1;
    }
    None
}

/// The first member named `key` is at position `i`.
pub(crate) proof fn lemma_member_get_at(m: Seq<(Seq<char>, JsonV)>, key: Seq<char>, i: int)
    requires
        0 <= i < m.len(),
        m[i].0 == key,
        forall|k: int| 0 <= k < i ==> (#[trigger] m[k]).0 != key,
    ensures
        member_get(m, key) == Some(m[i].1),
    decreases i,
{
    if i > 0 {
        assert forall|k: int| 0 <= k < i - 1 implies (#[trigger] m.drop_first()[k]).0 != key by {
            assert(m.drop_first()[k] == m[k + 1]);
        }
        lemma_member_get_at(m.drop_first(), key, i - 1);
    }
}

/// No member is named `key`.
pub(crate) proof fn lemma_member_get_absent(m: Seq<(Seq<char>, JsonV)>, key: Seq<char>)
    requires
        forall|k: int| 0 <= k < m.len() ==> (#[trigger] m[k]).0 != key,
    ensures
        member_get(m, key) is None,
    decreases m.len(),
{
    if m.len() > 0 {
        assert(m[0].0 != key);
        assert forall|k: int| 0 <= k < m.drop_first().len() implies (#[trigger] m.drop_first()[k]).0 != key by {
            assert(m.drop_first()[k] == m[k + 1]);
        }
        lemma_member_get_absent(m.drop_first(), key);
    }
}

/// The members with `key` added as `value` unless one is there.
fn members_or_insert(m: &mut Vec<(String, JsonValue)>, key: &str, value: JsonValue)
    ensures
        json_members_view(final(m)@) == member_or_insert(
            json_members_view(old(m)@),
            key@,
            value@,
        ),
{
    broadcast use lemma_json_members_view;

    let ghost mv = json_members_view(m@);
    match member_index(m, key) {
        Some(i) => {
            proof {
                assert forall|k: int| 0 <= k < i implies (#[trigger] mv[k]).0 != key@ by {
                    assert(mv[k] == (m@[k].0@, m@[k].1@));
                }
                lemma_member_get_at(mv, key@, i as int);
            }
        },
        None => {
            proof {
                assert forall|k: int| 0 <= k < mv.len() implies (#[trigger] mv[k]).0 != key@ by {
                    assert(mv[k] == (m@[k].0@, m@[k].1@));
                }
                lemma_member_get_absent(mv, key@);
            }
            m.push((text_string(key), value));
            assert(json_members_view(m@) =~= mv.push((key@, value@)));
        },
    }
}

/// One embedding item with its `object` member.
fn complete_item(item: JsonValue) -> (r: JsonValue)
    ensures
        r@ == completed_item(item@),
{
    broadcast use lemma_json_members_view;

    match item {
        JsonValue::Object(m) => {
            let mut m = m;
            members_or_insert(&mut m, "object", json_str("embedding"));
            JsonValue::Object(m)
        },
        other => other,
    }
}

/// The items of `data`, each with its `object` member.
fn complete_items(items: &Vec<JsonValue>) -> (r: Vec<JsonValue>)
    ensures
        json_seq_view(r@) == json_seq_view(items@).map_values(|x: JsonV| completed_item(x)),
{
    broadcast use lemma_json_seq_view;

    let mut out: Vec<JsonValue> = Vec::new();
    let mut i: usize = 0;
    while i < items.len()
        invariant
            i <= items@.len(),
            out@.len() == i,
            forall|k: int| 0 <= k < i ==> (#[trigger] out@[k])@ == completed_item(items@[k]@),
        decreases items@.len() - i,
    {
        out.push(complete_item(copy_json(&items[i])));
        i = i + 1;
    }
    assert(json_seq_view(out@) =~= json_seq_view(items@).map_values(|x: JsonV| completed_item(x)));
    out
}

/// Completes the runtime's reply to an embedding request (see
/// `completed_response`).
pub fn complete_embedding_response(v: JsonValue) -> (r: JsonValue)
    ensures
        r@ == completed_response(v@),
{
    broadcast use lemma_json_members_view, lemma_json_seq_view;

    match v {
        JsonValue::Object(m) => {
            let mut m = m;
            let ghost mv = json_members_view(m@);
            match member_index(&m, "data") {
                Some(i) => {
                    proof {
                        assert forall|k: int| 0 <= k < i implies (#[trigger] mv[k]).0 != "data"@ by {
                            assert(mv[k] == (m@[k].0@, m@[k].1@));
                        }
                        lemma_member_get_at(mv, "data"@, i as int);
                    }
                    let done = match &m[i].1 {
                        JsonValue::Array(items) => Some(complete_items(items)),
                        _ => None,
                    };
                    match done {
                        Some(new_items) => {
                            let ghost nv = json_seq_view(new_items@);
                            let (k, _old) = m.remove(i);
                            m.insert(i, (k, JsonValue::Array(new_items)));
                            proof {
                                lemma_member_set_at(mv, "data"@, JsonV::Array(nv), i as int);
                                assert(json_members_view(m@) =~= mv.update(
                                    i as int,
                                    ("data"@, JsonV::Array(nv)),
                                ));
                            }
                        },
                        None => {},
                    }
                },
                None => {
                    proof {
                        assert forall|k: int| 0 <= k < mv.len() implies (#[trigger] mv[k]).0 != "data"@ by {
                            assert(mv[k] == (m@[k].0@, m@[k].1@));
                        }
                        lemma_member_get_absent(mv, "data"@);
                    }
                },
            }
            members_or_insert(&mut m, "usage", default_usage_value());
            JsonValue::Object(m)
        },
        other => other,
    }
}

/// The token usage a reply reports where the runtime gives none.
fn default_usage_value() -> (r: JsonValue)
    ensures
        r@ == default_usage(),
{
    object2(
        "prompt_tokens",
        JsonValue::Number(text_string("0")),
        "total_tokens",
        JsonValue::Number(text_string("0")),
    )
}

} // verus!
