use foundry_acp::acp_types::{
    CancelAction, MultitaskStrategy, OnCompletion, OnDisconnect, RunCreate, RunCreateStateless, RunOutput,
    RunSearchRequest, RunStatus, ValueRunResultUpdate,
};
use foundry_acp::agents::{make_agent_entry, ModelInfo};
use foundry_acp::error::{NOT_FOUND, UNPROCESSABLE_ENTITY};
use foundry_acp::ids::Timestamp;
use foundry_acp::inference::{completion_outcome, RunOutcome, StreamAccumulator};
use foundry_acp::json::{json_str, JsonValue};
use foundry_acp::runs::{
    default_cancel_action, resume_stateless_run, resume_thread_run, timeout_message, CANCELLED_ERRCODE,
    TIMEOUT_ERRCODE,
};
use foundry_acp::state::{agent_id_from_alias, AppState};

fn state(timeout_secs: u64) -> AppState {
    let mut st = AppState::new(64, timeout_secs);
    for alias in ["qwen2.5-0.5b", "phi-4-mini"] {
        st.register_agent(make_agent_entry(ModelInfo {
            alias: alias.to_string(),
            model_type: "chat".to_string(),
            display_name: None,
            name: alias.to_string(),
            version: "1".to_string(),
            is_loaded: true,
        }));
    }
    st
}

fn request(agent: Option<&str>, input: Option<JsonValue>) -> RunCreateStateless {
    RunCreateStateless {
        base: RunCreate {
            agent_id: agent.map(|a| a.to_string()),
            input,
            metadata: None,
            config: None,
            webhook: None,
            stream_mode: None,
            on_disconnect: OnDisconnect::Cancel,
            multitask_strategy: MultitaskStrategy::Reject,
            after_seconds: None,
        },
        on_completion: OnCompletion::Delete,
    }
}

/// The assistant text an update carries: `values.messages[0]` with role
/// `assistant`.
fn update_text(u: &ValueRunResultUpdate) -> String {
    let msgs = u.values.get("messages").and_then(|m| m.as_array()).expect("messages list");
    assert_eq!(msgs.len(), 1);
    assert_eq!(msgs[0].get("role"), Some(&json_str("assistant")));
    msgs[0].get("content").and_then(|c| c.as_str()).expect("content").to_string()
}

fn search(agent: Option<u128>, status: Option<RunStatus>) -> RunSearchRequest {
    RunSearchRequest { agent_id: agent, status, metadata: None, limit: 10, offset: 0 }
}

#[test]
fn test_create_background_run_and_poll() {
    let mut st = state(300);
    let run = st.create_stateless_run(request(Some("qwen2.5-0.5b"), Some(json_str("Say hi")))).unwrap();
    assert_eq!(run.run.status, RunStatus::Pending);
    assert_eq!(run.run.agent_id, agent_id_from_alias("qwen2.5-0.5b"));
    assert!(run.run.thread_id.is_none());
    let id = run.run.run_id;
    // Still pending: waiting gives nothing yet.
    assert!(st.wait_stateless_run(id).unwrap().is_none());
    let update = st.record_run_outcome(id, completion_outcome(Some("hi!".to_string()), Some((3, 2, 5))));
    let update = update.unwrap();
    assert_eq!(update.status, RunStatus::Success);
    assert_eq!(update_text(&update), "hi!");
    assert_eq!(update.update_type, "values");
    let done = st.wait_stateless_run(id).unwrap().unwrap();
    assert_eq!(done.run.as_ref().unwrap().run.status, RunStatus::Success);
    match &done.output {
        Some(RunOutput::Result { values: Some(v), messages: Some(m) }) => {
            assert_eq!(v.get("text"), Some(&json_str("hi!")));
            let usage = v.get("usage").unwrap();
            assert_eq!(usage.get("prompt_tokens"), Some(&JsonValue::Number("3".to_string())));
            assert_eq!(usage.get("completion_tokens"), Some(&JsonValue::Number("2".to_string())));
            assert_eq!(usage.get("total_tokens"), Some(&JsonValue::Number("5".to_string())));
            assert_eq!(m.len(), 1);
            assert_eq!(m[0].role, "assistant");
            assert_eq!(m[0].content, json_str("hi!"));
        }
        other => panic!("unexpected output {other:?}"),
    }
    st.delete_run(id).unwrap();
    assert_eq!(st.get_stateless_run(id).unwrap_err().status, NOT_FOUND);
}

#[test]
fn test_create_stateless_run_wait() {
    let mut st = state(300);
    let run = st.create_stateless_run(request(None, Some(json_str("hello")))).unwrap();
    // With no agent named, the first registered agent runs it.
    assert_eq!(run.run.agent_id, agent_id_from_alias("qwen2.5-0.5b"));
    let got = st.get_stateless_run(run.run.run_id).unwrap();
    assert_eq!(got.run.run_id, run.run.run_id);
    assert!(got.creation.base.input.is_some());
}

#[test]
fn run_with_unknown_agent_is_not_found_and_stores_nothing() {
    let mut st = state(300);
    let e = st.create_stateless_run(request(Some("llama"), None)).unwrap_err();
    assert_eq!(e.status, 404);
    assert_eq!(e.message, "Agent not found: llama");
    assert_eq!(st.run_count(), 0);
}

#[test]
fn test_run_not_found() {
    let mut st = state(300);
    let e = st.get_stateless_run(0).unwrap_err();
    assert_eq!(e.status, 404);
    assert_eq!(e.message, "Run not found: 00000000-0000-0000-0000-000000000000");
    assert_eq!(st.wait_stateless_run(0).unwrap_err().status, 404);
    assert_eq!(st.delete_run(0).unwrap_err().status, 404);
    assert_eq!(st.cancel_stateless_run(0).unwrap_err().status, 404);
    assert_eq!(st.get_thread_run(0).unwrap_err().status, 404);
}

#[test]
fn test_search_stateless_runs() {
    let mut st = state(300);
    let a = st.create_stateless_run(request(Some("qwen2.5-0.5b"), None)).unwrap().run.run_id;
    let b = st.create_stateless_run(request(Some("phi-4-mini"), None)).unwrap().run.run_id;
    st.record_run_outcome(b, RunOutcome::Failed { message: "x".to_string() });
    assert_eq!(st.search_stateless_runs(&search(None, None)).len(), 2);
    let q = st.search_stateless_runs(&search(Some(agent_id_from_alias("qwen2.5-0.5b")), None));
    assert_eq!(q.len(), 1);
    assert_eq!(q[0].run.run_id, a);
    let failed = st.search_stateless_runs(&search(None, Some(RunStatus::Error)));
    assert_eq!(failed.len(), 1);
    assert_eq!(failed[0].run.run_id, b);
    let page = st.search_stateless_runs(&RunSearchRequest { agent_id: None, status: None, metadata: None, limit: 1, offset: 1 });
    assert_eq!(page.len(), 1);
    assert_eq!(page[0].run.run_id, b);
}

#[test]
fn test_cancel_run() {
    let mut st = state(300);
    let id = st.create_stateless_run(request(None, Some(json_str("long essay")))).unwrap().run.run_id;
    st.cancel_stateless_run(id).unwrap();
    let run = st.get_stateless_run(id).unwrap();
    assert_eq!(run.run.status, RunStatus::Error);
    match &st.wait_stateless_run(id).unwrap().unwrap().output {
        Some(RunOutput::Error { run_id, errcode, description }) => {
            assert_eq!(*run_id, id);
            assert_eq!(*errcode, CANCELLED_ERRCODE);
            assert_eq!(*errcode, 499);
            assert_eq!(description, "Run cancelled by client");
        }
        other => panic!("unexpected output {other:?}"),
    }
    // Cancelling again leaves the run as it is.
    st.cancel_stateless_run(id).unwrap();
    assert_eq!(st.get_stateless_run(id).unwrap().run.status, RunStatus::Error);
}

#[test]
fn cancel_of_finished_run_changes_nothing() {
    let mut st = state(300);
    let id = st.create_stateless_run(request(None, None)).unwrap().run.run_id;
    st.record_run_outcome(id, completion_outcome(Some("done".to_string()), None));
    st.cancel_thread_run(id).unwrap();
    assert_eq!(st.get_stateless_run(id).unwrap().run.status, RunStatus::Success);
}

#[test]
fn thread_run_cancel_description() {
    let mut st = state(300);
    let id = st.create_stateless_run(request(None, None)).unwrap().run.run_id;
    st.cancel_thread_run(id).unwrap();
    match &st.wait_thread_run(id).unwrap().unwrap().output {
        Some(RunOutput::Error { description, .. }) => assert_eq!(description, "Run cancelled"),
        other => panic!("unexpected output {other:?}"),
    }
}

#[test]
fn test_resume_not_supported() {
    let e = resume_stateless_run();
    assert_eq!(e.status, UNPROCESSABLE_ENTITY);
    assert_eq!(e.status, 422);
    assert_eq!(e.message, "Interrupts and resume are not supported by this server");
    let e = resume_thread_run();
    assert_eq!(e.status, 422);
    assert_eq!(e.message, "Interrupts and resume are not supported");
}

#[test]
fn timed_out_run_reports_408() {
    let mut st = state(42);
    let id = st.create_stateless_run(request(None, None)).unwrap().run.run_id;
    assert!(st.record_run_outcome(id, RunOutcome::TimedOut).is_none());
    assert_eq!(st.get_stateless_run(id).unwrap().run.status, RunStatus::Timeout);
    match &st.wait_stateless_run(id).unwrap().unwrap().output {
        Some(RunOutput::Error { errcode, description, .. }) => {
            assert_eq!(*errcode, TIMEOUT_ERRCODE);
            assert_eq!(*errcode, 408);
            assert_eq!(description, "Run timed out after 42 seconds");
        }
        other => panic!("unexpected output {other:?}"),
    }
    assert_eq!(timeout_message(300), "Run timed out after 300 seconds");
}

#[test]
fn outcome_of_deleted_run_is_dropped() {
    let mut st = state(300);
    let id = st.create_stateless_run(request(None, None)).unwrap().run.run_id;
    st.delete_run(id).unwrap();
    assert!(st.record_run_outcome(id, completion_outcome(Some("x".to_string()), None)).is_none());
    assert_eq!(st.run_count(), 0);
}

#[test]
fn update_run_error_marks_failure() {
    let mut st = state(300);
    let id = st.create_stateless_run(request(None, None)).unwrap().run.run_id;
    st.update_run_error(id, "Model not ready".to_string());
    match &st.wait_stateless_run(id).unwrap().unwrap().output {
        Some(RunOutput::Error { errcode, description, .. }) => {
            assert_eq!(*errcode, 500);
            assert_eq!(description, "Model not ready");
        }
        other => panic!("unexpected output {other:?}"),
    }
}

#[test]
fn test_stateless_run_stream() {
    let mut st = state(300);
    let id = st.create_stateless_run(request(None, Some(json_str("Count from 1 to 5.")))).unwrap().run.run_id;
    let mut acc = StreamAccumulator::new(id);
    let u1 = acc.push_delta("1");
    let u2 = acc.push_delta(", 2");
    // Each update carries the whole text so far (replacement semantics).
    assert_eq!(update_text(&u1), "1");
    assert_eq!(update_text(&u2), "1, 2");
    assert!(u1.values.get("text").is_none());
    assert_eq!(u2.status, RunStatus::Pending);
    assert_eq!(u2.run_id, id);
    let last = st.finish_streaming_run(id, &acc.text).unwrap();
    assert_eq!(last.status, RunStatus::Success);
    assert_eq!(update_text(&last), "1, 2");
    let done = st.wait_stateless_run(id).unwrap().unwrap();
    match &done.output {
        Some(RunOutput::Result { values: Some(v), messages: Some(m) }) => {
            assert_eq!(v.get("text"), Some(&json_str("1, 2")));
            assert!(v.get("usage").is_none());
            assert_eq!(m[0].content, json_str("1, 2"));
        }
        other => panic!("unexpected output {other:?}"),
    }
    assert!(st.finish_streaming_run(0, "x").is_none());
}

#[test]
fn settle_at_given_time() {
    let mut st = state(300);
    let now = Timestamp { secs: 100, nanos: 7 };
    let created = st.create_stateless_run_at(request(None, None), 77, now).unwrap();
    assert_eq!(created.run.run_id, 77);
    assert_eq!(created.run.created_at, now);
    let later = Timestamp { secs: 200, nanos: 0 };
    st.cancel_run_at(77, "stop", later).unwrap();
    let run = st.get_stateless_run(77).unwrap();
    assert_eq!(run.run.updated_at, later);
    assert_eq!(run.run.created_at, now);
    st.delete_run(77).unwrap();
    let e = st.get_stateless_run(77).unwrap_err();
    assert_eq!(e.message, "Run not found: 00000000-0000-0000-0000-00000000004d");
}

#[test]
fn default_cancel_action_is_interrupt() {
    assert_eq!(default_cancel_action(), CancelAction::Interrupt);
}

#[test]
fn cancelled_run_stays_cancelled_when_outcome_arrives() {
    let mut st = state(300);
    let id = st.create_stateless_run(request(None, Some(json_str("long essay")))).unwrap().run.run_id;
    st.cancel_stateless_run(id).unwrap();
    // The model answers after the cancel: nothing is recorded or sent.
    assert!(st.record_run_outcome(id, completion_outcome(Some("late".to_string()), None)).is_none());
    assert!(st.record_run_outcome(id, RunOutcome::TimedOut).is_none());
    st.update_run_error(id, "late failure".to_string());
    assert!(st.finish_streaming_run(id, "late").is_none());
    assert_eq!(st.get_stateless_run(id).unwrap().run.status, RunStatus::Error);
    match &st.wait_stateless_run(id).unwrap().unwrap().output {
        Some(RunOutput::Error { errcode, description, .. }) => {
            assert_eq!(*errcode, 499);
            assert_eq!(description, "Run cancelled by client");
        }
        other => panic!("unexpected output {other:?}"),
    }
}

#[test]
fn run_search_by_metadata() {
    let mut st = state(300);
    let mut tagged = request(None, None);
    tagged.base.metadata = Some(JsonValue::Object(vec![
        ("team".to_string(), json_str("a")),
        ("n".to_string(), JsonValue::Number("1".to_string())),
    ]));
    let a = st.create_stateless_run(tagged).unwrap().run.run_id;
    st.create_stateless_run(request(None, None)).unwrap();
    let want = JsonValue::Object(vec![("team".to_string(), json_str("a"))]);
    let req = RunSearchRequest { agent_id: None, status: None, metadata: Some(want), limit: 10, offset: 0 };
    let found = st.search_stateless_runs(&req);
    assert_eq!(found.len(), 1);
    assert_eq!(found[0].run.run_id, a);
    let other = JsonValue::Object(vec![("team".to_string(), json_str("b"))]);
    let req = RunSearchRequest { agent_id: None, status: None, metadata: Some(other), limit: 10, offset: 0 };
    assert!(st.search_stateless_runs(&req).is_empty());
    let empty = JsonValue::Object(vec![]);
    let req = RunSearchRequest { agent_id: None, status: None, metadata: Some(empty), limit: 10, offset: 0 };
    assert_eq!(st.search_stateless_runs(&req).len(), 2);
}
