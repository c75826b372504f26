use foundry_acp::acp_types::{
    IfExists, IfNotExists, Message, MultitaskStrategy, OnDisconnect, RunCreate, RunCreateStateful,
    RunOutput, RunStatus, ThreadCreate, ThreadPatch, ThreadSearchRequest, ThreadStatus,
};
use foundry_acp::agents::{make_agent_entry, ModelInfo};
use foundry_acp::error::{CONFLICT, NOT_FOUND};
use foundry_acp::ids::Timestamp;
use foundry_acp::inference::{completion_outcome, RunOutcome};
use foundry_acp::json::{empty_object, json_str, object1, JsonValue};
use foundry_acp::state::{agent_id_from_alias, AppState};
use foundry_acp::threads::{thread_uuid, HistoryQuery, PaginationQuery};

fn state() -> AppState {
    let mut st = AppState::new(64, 300);
    st.register_agent(make_agent_entry(ModelInfo {
        alias: "qwen2.5-0.5b".to_string(),
        model_type: "chat".to_string(),
        display_name: None,
        name: "qwen2.5-0.5b-cpu".to_string(),
        version: "1".to_string(),
        is_loaded: true,
    }));
    st
}

fn at(secs: i64) -> Timestamp {
    Timestamp { secs, nanos: 0 }
}

fn obj(members: Vec<(&str, JsonValue)>) -> JsonValue {
    JsonValue::Object(members.into_iter().map(|(k, v)| (k.to_string(), v)).collect())
}

fn user_input(text: &str) -> JsonValue {
    obj(vec![(
        "messages",
        JsonValue::Array(vec![obj(vec![("role", json_str("user")), ("content", json_str(text))])]),
    )])
}

fn create(id: &str, if_exists: IfExists) -> ThreadCreate {
    ThreadCreate { thread_id: Some(id.to_string()), metadata: None, if_exists }
}

fn run_request(if_not_exists: IfNotExists, input: Option<JsonValue>) -> RunCreateStateful {
    RunCreateStateful {
        base: RunCreate {
            agent_id: Some("qwen2.5-0.5b".to_string()),
            input,
            metadata: None,
            config: None,
            webhook: None,
            stream_mode: None,
            on_disconnect: OnDisconnect::Cancel,
            multitask_strategy: MultitaskStrategy::Reject,
            after_seconds: None,
        },
        stream_subgraphs: false,
        if_not_exists,
    }
}

fn no_patch() -> ThreadPatch {
    ThreadPatch { checkpoint: None, metadata: None, values: None, messages: None }
}

/// One whole run on a thread: prepare, start, complete with `reply`, finish.
fn run_turn(st: &mut AppState, thread_id: &str, text: &str, reply: &str) -> u128 {
    let input = Some(user_input(text));
    let (run_id, _agent) = st.prepare_thread_run(thread_id, run_request(IfNotExists::Reject, None)).unwrap();
    let conversation = st.begin_thread_run(thread_id, &input).unwrap();
    assert!(!conversation.is_empty());
    st.record_run_outcome(run_id, completion_outcome(Some(reply.to_string()), None));
    st.finish_thread_run(thread_id, run_id);
    run_id
}

#[test]
fn test_thread_lifecycle() {
    let mut st = state();
    let md = object1("test", JsonValue::Bool(true));
    let t = st
        .create_thread(ThreadCreate { thread_id: None, metadata: Some(md), if_exists: IfExists::Raise })
        .unwrap();
    assert_eq!(t.status, ThreadStatus::Idle);
    assert_eq!(t.thread_id.len(), 36);
    assert_eq!(t.created_at, t.updated_at);
    let id = t.thread_id.clone();

    let got = st.get_thread(&id).unwrap();
    assert_eq!(got.thread_id, id);

    let patch = ThreadPatch { metadata: Some(object1("updated", JsonValue::Bool(true))), ..no_patch() };
    let patched = st.patch_thread(&id, patch).unwrap();
    assert_eq!(patched.metadata.get("updated"), Some(&JsonValue::Bool(true)));
    assert_eq!(patched.metadata.get("test"), Some(&JsonValue::Bool(true)));

    let copy = st.copy_thread(&id).unwrap();
    assert_ne!(copy.thread_id, id);
    assert_eq!(copy.metadata.get("updated"), Some(&JsonValue::Bool(true)));

    st.delete_thread(&copy.thread_id).unwrap();
    st.delete_thread(&id).unwrap();
    let e = st.get_thread(&id).unwrap_err();
    assert_eq!(e.status, NOT_FOUND);
    assert_eq!(e.message, format!("Thread not found: {id}"));
}

#[test]
fn test_thread_duplicate_handling() {
    let mut st = state();
    let first = st.create_thread(create("dup-thread", IfExists::Raise)).unwrap();
    let e = st.create_thread(create("dup-thread", IfExists::Raise)).unwrap_err();
    assert_eq!(e.status, CONFLICT);
    assert_eq!(e.message, "Thread already exists: dup-thread");
    let again = st.create_thread(create("dup-thread", IfExists::DoNothing)).unwrap();
    assert_eq!(again.thread_id, first.thread_id);
    assert_eq!(again.created_at, first.created_at);
    assert_eq!(st.thread_count(), 1);
}

#[test]
fn created_thread_has_empty_object_metadata_and_no_messages() {
    let mut st = state();
    let t = st.create_thread_with("t1".to_string(), None, IfExists::Raise, at(5)).unwrap();
    assert_eq!(t.metadata, empty_object());
    assert_eq!(t.created_at, at(5));
    assert_eq!(t.messages.as_ref().map(|m| m.len()), Some(0));
    assert!(t.values.is_none());
}

#[test]
fn test_search_threads() {
    let mut st = state();
    st.create_thread(create("a", IfExists::Raise)).unwrap();
    st.create_thread(create("b", IfExists::Raise)).unwrap();
    st.prepare_thread_run("b", run_request(IfNotExists::Reject, None)).unwrap();
    let idle = ThreadSearchRequest { metadata: None, values: None, status: Some(ThreadStatus::Idle), limit: 10, offset: 0 };
    let found = st.search_threads(&idle);
    assert_eq!(found.len(), 1);
    assert_eq!(found[0].thread_id, "a");
    let busy = ThreadSearchRequest { status: Some(ThreadStatus::Busy), ..idle };
    assert_eq!(st.search_threads(&busy)[0].thread_id, "b");
    let all = ThreadSearchRequest { metadata: None, values: None, status: None, limit: 1, offset: 1 };
    let page = st.search_threads(&all);
    assert_eq!(page.len(), 1);
    assert_eq!(page[0].thread_id, "b");
}

#[test]
fn patch_of_missing_thread_is_not_found() {
    let mut st = state();
    let e = st.patch_thread("nope", no_patch()).unwrap_err();
    assert_eq!(e.status, 404);
    assert_eq!(e.message, "Thread not found: nope");
    assert_eq!(st.delete_thread("nope").unwrap_err().status, 404);
    assert_eq!(st.copy_thread("nope").unwrap_err().status, 404);
}

#[test]
fn patch_replaces_values_and_messages() {
    let mut st = state();
    st.create_thread(create("p", IfExists::Raise)).unwrap();
    let msg = Message { role: "user".to_string(), content: json_str("hi"), id: None, metadata: None };
    let patch = ThreadPatch {
        values: Some(object1("k", JsonValue::Null)),
        messages: Some(vec![msg]),
        ..no_patch()
    };
    let t = st.patch_thread("p", patch).unwrap();
    assert_eq!(t.values, Some(object1("k", JsonValue::Null)));
    assert_eq!(t.messages.as_ref().map(|m| m.len()), Some(1));
    let again = st.get_thread("p").unwrap();
    assert_eq!(again.messages.unwrap()[0].content, json_str("hi"));
}

#[test]
fn patch_keeps_non_object_metadata() {
    let mut st = state();
    st.create_thread(ThreadCreate {
        thread_id: Some("s".to_string()),
        metadata: Some(json_str("plain")),
        if_exists: IfExists::Raise,
    })
    .unwrap();
    let t = st.patch_thread("s", ThreadPatch { metadata: Some(object1("x", JsonValue::Null)), ..no_patch() }).unwrap();
    assert_eq!(t.metadata, json_str("plain"));
}

#[test]
fn test_thread_run_wait() {
    let mut st = state();
    st.create_thread(create("conv", IfExists::Raise)).unwrap();
    let run_id = run_turn(&mut st, "conv", "What is 2+2?", "4");
    let waited = st.wait_thread_run(run_id).unwrap().unwrap();
    assert_eq!(waited.run.as_ref().unwrap().run.status, RunStatus::Success);
    assert!(waited.output.is_some());
    let t = st.get_thread("conv").unwrap();
    assert_eq!(t.status, ThreadStatus::Idle);
    let msgs = t.messages.unwrap();
    assert_eq!(msgs.len(), 2);
    assert_eq!(msgs[0].role, "user");
    assert_eq!(msgs[1].role, "assistant");
    assert_eq!(msgs[1].content, json_str("4"));
    let history = st.get_thread_history("conv", &HistoryQuery { limit: 10, before: None }).unwrap();
    assert_eq!(history.len(), 1);
    assert_eq!(history[0].messages.as_ref().unwrap().len(), 2);
    let runs = st.list_thread_runs("conv", &PaginationQuery { limit: None, offset: None }).unwrap();
    assert_eq!(runs.len(), 1);
    assert_eq!(runs[0].run.run_id, run_id);
}

#[test]
fn test_multi_turn_thread_conversation() {
    let mut st = state();
    st.create_thread(create("alice", IfExists::Raise)).unwrap();
    run_turn(&mut st, "alice", "My name is Alice.", "Hello Alice.");
    let (run_id, _) = st.prepare_thread_run("alice", run_request(IfNotExists::Reject, None)).unwrap();
    let conversation = st.begin_thread_run("alice", &Some(user_input("What is my name?"))).unwrap();
    // The second turn sees the whole first turn, then its own input.
    assert_eq!(conversation.len(), 3);
    assert_eq!(conversation[2].content, json_str("What is my name?"));
    st.record_run_outcome(run_id, completion_outcome(Some("Alice".to_string()), None));
    st.finish_thread_run("alice", run_id);
    let msgs = st.get_thread("alice").unwrap().messages.unwrap();
    assert_eq!(msgs.len(), 4);
    let history = st.get_thread_history("alice", &HistoryQuery { limit: 10, before: None }).unwrap();
    assert_eq!(history.len(), 2);
    // Newest checkpoint first.
    assert_eq!(history[0].messages.as_ref().unwrap().len(), 4);
    assert_eq!(history[1].messages.as_ref().unwrap().len(), 2);
    let newest = st.get_thread_history("alice", &HistoryQuery { limit: 0, before: None }).unwrap();
    assert_eq!(newest.len(), 1);
}

#[test]
fn busy_thread_refuses_second_run_and_deletion() {
    let mut st = state();
    st.create_thread(create("busy", IfExists::Raise)).unwrap();
    st.prepare_thread_run("busy", run_request(IfNotExists::Reject, None)).unwrap();
    assert_eq!(st.get_thread("busy").unwrap().status, ThreadStatus::Busy);
    let e = st.prepare_thread_run("busy", run_request(IfNotExists::Reject, None)).unwrap_err();
    assert_eq!(e.status, CONFLICT);
    assert_eq!(e.message, "Thread already has a pending run");
    let e = st.delete_thread("busy").unwrap_err();
    assert_eq!(e.status, 409);
    assert_eq!(e.message, "Cannot delete thread with pending runs");
}

#[test]
fn test_thread_run_if_not_exists_create() {
    let mut st = state();
    let (run_id, agent) = st.prepare_thread_run("fresh", run_request(IfNotExists::Create, None)).unwrap();
    assert_eq!(agent, agent_id_from_alias("qwen2.5-0.5b"));
    let t = st.get_thread("fresh").unwrap();
    assert_eq!(t.status, ThreadStatus::Busy);
    let run = st.get_thread_run(run_id).unwrap();
    assert_eq!(run.run.thread_id, Some(thread_uuid("fresh")));
    assert_eq!(run.run.status, RunStatus::Pending);
}

#[test]
fn test_thread_run_if_not_exists_reject() {
    let mut st = state();
    let e = st.prepare_thread_run("absent", run_request(IfNotExists::Reject, None)).unwrap_err();
    assert_eq!(e.status, 404);
    assert_eq!(st.thread_count(), 0);
    assert_eq!(st.run_count(), 0);
}

#[test]
fn thread_run_with_unknown_agent_is_not_found() {
    let mut st = state();
    st.create_thread(create("x", IfExists::Raise)).unwrap();
    let mut req = run_request(IfNotExists::Reject, None);
    req.base.agent_id = Some("llama".to_string());
    let e = st.prepare_thread_run("x", req).unwrap_err();
    assert_eq!(e.message, "Agent not found: llama");
}

#[test]
fn thread_key_is_uuid_or_uuid5_of_text() {
    let id = "0b9f3b84-1f4e-4a39-9a43-6e3f4b8d2c11";
    assert_eq!(thread_uuid(id), 0x0b9f3b841f4e4a399a436e3f4b8d2c11u128);
    assert_eq!(thread_uuid("my-thread"), 0x9c8a9a53738c52f0aae42af8a981f6a4u128);
}

#[test]
fn copy_holds_conversation_and_history() {
    let mut st = state();
    st.create_thread(create("orig", IfExists::Raise)).unwrap();
    run_turn(&mut st, "orig", "hi", "hello");
    let copy = st.copy_thread_at("orig", "copy".to_string(), at(9)).unwrap();
    assert_eq!(copy.status, ThreadStatus::Idle);
    assert_eq!(copy.created_at, at(9));
    assert_eq!(copy.messages.as_ref().unwrap().len(), 2);
    let h = st.get_thread_history("copy", &HistoryQuery { limit: 5, before: None }).unwrap();
    assert_eq!(h.len(), 1);
    assert_eq!(st.get_thread("orig").unwrap().messages.unwrap().len(), 2);
}

#[test]
fn list_thread_runs_pages() {
    let mut st = state();
    st.create_thread(create("many", IfExists::Raise)).unwrap();
    let first = run_turn(&mut st, "many", "1", "one");
    let second = run_turn(&mut st, "many", "2", "two");
    let all = st.list_thread_runs("many", &PaginationQuery { limit: None, offset: None }).unwrap();
    assert_eq!(all.len(), 2);
    let p = st.list_thread_runs("many", &PaginationQuery { limit: Some(1), offset: Some(1) }).unwrap();
    assert_eq!(p.len(), 1);
    assert!(p[0].run.run_id == first || p[0].run.run_id == second);
    assert_eq!(st.list_thread_runs("none", &PaginationQuery { limit: None, offset: None }).unwrap_err().status, 404);
}

#[test]
fn failed_thread_run_adds_no_reply() {
    let mut st = state();
    st.create_thread(create("f", IfExists::Raise)).unwrap();
    let (run_id, _) = st.prepare_thread_run("f", run_request(IfNotExists::Reject, None)).unwrap();
    st.begin_thread_run("f", &Some(user_input("hi")));
    st.record_run_outcome(run_id, RunOutcome::Failed { message: "model crashed".to_string() });
    st.finish_thread_run("f", run_id);
    let t = st.get_thread("f").unwrap();
    assert_eq!(t.status, ThreadStatus::Idle);
    assert_eq!(t.messages.unwrap().len(), 1);
    match st.get_thread_run(run_id).unwrap().run.status {
        RunStatus::Error => {}
        other => panic!("unexpected status {other:?}"),
    }
    match &st.wait_thread_run(run_id).unwrap().unwrap().output {
        Some(RunOutput::Error { errcode, description, .. }) => {
            assert_eq!(*errcode, 500);
            assert_eq!(description, "model crashed");
        }
        other => panic!("unexpected output {other:?}"),
    }
}

#[test]
fn changes_to_one_thread_leave_others() {
    let mut st = state();
    st.create_thread(create("one", IfExists::Raise)).unwrap();
    st.create_thread(create("two", IfExists::Raise)).unwrap();
    let before = st.get_thread("two").unwrap();
    st.patch_thread("one", ThreadPatch { metadata: Some(object1("k", JsonValue::Null)), ..no_patch() }).unwrap();
    run_turn(&mut st, "one", "hi", "hello");
    st.delete_thread("one").unwrap();
    let after = st.get_thread("two").unwrap();
    assert_eq!(after.thread_id, before.thread_id);
    assert_eq!(after.updated_at, before.updated_at);
    assert_eq!(after.metadata, before.metadata);
    assert_eq!(after.status, ThreadStatus::Idle);
    assert_eq!(after.messages.unwrap().len(), 0);
}

#[test]
fn thread_search_by_metadata() {
    let mut st = state();
    let md = JsonValue::Object(vec![
        ("project".to_string(), json_str("x")),
        ("n".to_string(), JsonValue::Number("2".to_string())),
    ]);
    st.create_thread(ThreadCreate { thread_id: Some("m".to_string()), metadata: Some(md), if_exists: IfExists::Raise })
        .unwrap();
    st.create_thread(create("plain", IfExists::Raise)).unwrap();
    let want = JsonValue::Object(vec![("project".to_string(), json_str("x"))]);
    let req = ThreadSearchRequest { metadata: Some(want), values: None, status: None, limit: 10, offset: 0 };
    let found = st.search_threads(&req);
    assert_eq!(found.len(), 1);
    assert_eq!(found[0].thread_id, "m");
    let wrong = JsonValue::Object(vec![("n".to_string(), JsonValue::Number("3".to_string()))]);
    let req = ThreadSearchRequest { metadata: Some(wrong), values: None, status: None, limit: 10, offset: 0 };
    assert!(st.search_threads(&req).is_empty());
}
