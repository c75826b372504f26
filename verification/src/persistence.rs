//! What the SQLite store of threads and runs holds: its rows and the texts
//! that its status columns take.

use vstd::prelude::*;
use crate::acp_types::{RunStatus, ThreadStatus};
use crate::json::{empty_object, json_parse, json_text, json_to_string, merge_objects, members_merge, parse_json, JsonV, JsonValue};

verus! {

/// A thread as stored in SQLite.
#[derive(Debug)]
pub struct StoredThread {
    pub thread_id: String,
    pub status: String,
    pub metadata: String,
    pub messages: String,
    pub created_at: String,
    pub updated_at: String,
}

/// The text of a thread status as the store holds it (its `snake_case`
/// serialized name).
pub open spec fn thread_status_name(s: ThreadStatus) -> Seq<char> {
    match s {
        ThreadStatus::Idle => "idle"@,
        ThreadStatus::Busy => "busy"@,
        ThreadStatus::Interrupted => "interrupted"@,
        ThreadStatus::Error => "error"@,
    }
}

/// The text of a thread status for the `status` column.
pub fn thread_status_text(s: ThreadStatus) -> (r: &'static str)
    ensures
        r@ == thread_status_name(s),
{
    match s {
        ThreadStatus::Idle => "idle",
        ThreadStatus::Busy => "busy",
        ThreadStatus::Interrupted => "interrupted",
        ThreadStatus::Error => "error",
    }
}

/// The text that a finished run's status is stored under: the three final
/// outcomes by name, anything else as `pending`.
pub open spec fn run_status_name(s: RunStatus) -> Seq<char> {
    match s {
        RunStatus::Success => "success"@,
        RunStatus::Error => "error"@,
        RunStatus::Timeout => "timeout"@,
        _ => "pending"@,
    }
}

/// The text of a run status for the `status` column.
pub fn run_status_text(s: RunStatus) -> (r: &'static str)
    ensures
        r@ == run_status_name(s),
{
    match s {
        RunStatus::Success => "success",
        RunStatus::Error => "error",
        RunStatus::Timeout => "timeout",
        _ => "pending",
    }
}

/// The stored metadata after a patch: the stored object (an empty object
/// where the stored text did not read as JSON) with each member of the
/// patch set in it, when both are objects; else the stored value as it is.
pub open spec fn merged_metadata_value(stored: Option<JsonV>, patch: JsonV) -> JsonV {
    let base = match stored {
        Some(v) => v,
        None => JsonV::Object(Seq::empty()),
    };
    if base is Object && patch is Object {
        JsonV::Object(members_merge(base->Object_0, patch->Object_0))
    } else {
        base
    }
}

/// Merges a metadata patch into the stored metadata; `stored` is `None`
/// where the stored text could not be read as JSON.
pub fn merged_metadata(stored: Option<JsonValue>, patch: JsonValue) -> (r: JsonValue)
    ensures
        r@ == merged_metadata_value(stored.deep_view(), patch@),
{
    let mut base = match stored {
        Some(v) => v,
        None => empty_object(),
    };
    merge_objects(&mut base, patch);
    base
}

/// The metadata text to store after a patch: the stored text read as JSON,
/// merged with the patch as `merged_metadata` does, and written back.
pub fn merged_metadata_text(stored: &str, patch: JsonValue) -> (r: String)
    ensures
        r@ == json_text(merged_metadata_value(json_parse(stored@), patch@)),
{
    let parsed = parse_json(stored);
    let merged = merged_metadata(parsed, patch);
    json_to_string(&merged)
}

} // verus!
