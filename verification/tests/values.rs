use foundry_acp::acp_types::{
    default_if_exists, default_if_not_exists, default_limit, default_multitask, default_on_completion,
    default_on_disconnect, IfExists, IfNotExists, Message, MultitaskStrategy, OnCompletion, OnDisconnect,
    RunConfig, RunStatus, ThreadStatus,
};
use foundry_acp::config::ServerConfig;
use foundry_acp::embedding::{command_params, complete_embedding_response, embedding_reply, EmbeddingClient, FoundryLocalError};
use foundry_acp::health::{record_start_time, ServerClock};
use foundry_acp::inference::{
    build_message_list, extract_config, extract_messages, message_content_text, ChatMessage,
};
use foundry_acp::json::{empty_object, json_str, merge_objects, object1, JsonValue};
use foundry_acp::metrics::normalise_path;
use foundry_acp::paging::paginate;
use foundry_acp::persistence::{merged_metadata, merged_metadata_text, run_status_text, thread_status_text, StoredThread};
use foundry_acp::state::AppState;
use foundry_acp::text::{decimal_string, text_contains, text_less};
use foundry_acp::threads::{default_history_limit, thread_uuid};

fn obj(members: Vec<(&str, JsonValue)>) -> JsonValue {
    JsonValue::Object(members.into_iter().map(|(k, v)| (k.to_string(), v)).collect())
}

fn num(t: &str) -> JsonValue {
    JsonValue::Number(t.to_string())
}

fn msg(role: &str, content: JsonValue) -> Message {
    Message { role: role.to_string(), content, id: None, metadata: None }
}

// ── Defaults ─────────────────────────────────────────────────────────────────

#[test]
fn protocol_defaults() {
    assert_eq!(default_limit(), 10);
    assert_eq!(default_on_disconnect(), OnDisconnect::Cancel);
    assert_eq!(default_multitask(), MultitaskStrategy::Reject);
    assert_eq!(default_on_completion(), OnCompletion::Delete);
    assert_eq!(default_if_not_exists(), IfNotExists::Reject);
    assert_eq!(default_if_exists(), IfExists::Raise);
    assert_eq!(default_history_limit(), 10);
}

#[test]
fn server_config_defaults() {
    let c = ServerConfig::default();
    assert_eq!(c.run_timeout_secs, 300);
    assert_eq!(c.max_concurrent_runs, 64);
    assert!(c.db_path.is_none());
    assert_eq!(c.run_permits(), Some(64));
}

#[test]
fn server_config_from_options() {
    let c = ServerConfig::from_options(0, 0, Some("acp.db".to_string()));
    assert_eq!(c.run_timeout_secs, u64::MAX);
    assert_eq!(c.run_permits(), None);
    assert_eq!(c.db_path.as_deref(), Some("acp.db"));
    let c = ServerConfig::from_options(30, 4, None);
    assert_eq!(c.run_timeout_secs, 30);
    assert_eq!(c.run_permits(), Some(4));
    let st = AppState::with_config(&c);
    assert_eq!(st.max_runs, 4);
    assert_eq!(st.run_timeout_secs, 30);
}

// ── Identifiers and text ─────────────────────────────────────────────────────

#[test]
fn uuid_text_is_read_and_written() {
    assert_eq!(thread_uuid("67e55044-10b1-426f-9247-bb680e5fe0c8"), 0x67e5504410b1426f9247bb680e5fe0c8u128);
    assert_eq!(thread_uuid("67E55044-10B1-426F-9247-BB680E5FE0C8"), 0x67e5504410b1426f9247bb680e5fe0c8u128);
    let st = AppState::new(1, 1);
    let e = st.get_stateless_run(0x67e5504410b1426f9247bb680e5fe0c8u128).unwrap_err();
    assert_eq!(e.message, "Run not found: 67e55044-10b1-426f-9247-bb680e5fe0c8");
}

#[test]
fn decimal_and_order() {
    assert_eq!(decimal_string(0), "0");
    assert_eq!(decimal_string(408), "408");
    assert_eq!(decimal_string(u64::MAX), "18446744073709551615");
    assert!(text_less("abc", "abd"));
    assert!(text_less("ab", "abc"));
    assert!(!text_less("abc", "abc"));
    assert!(!text_less("b", "abc"));
    assert!(text_contains("qwen2.5-0.5b", "2.5"));
    assert!(text_contains("qwen", ""));
    assert!(!text_contains("qwen", "qwen2"));
}

#[test]
fn paginate_bounds() {
    let v: Vec<u32> = (0..10).collect();
    assert_eq!(paginate(v.clone(), 0, 3), vec![0, 1, 2]);
    assert_eq!(paginate(v.clone(), 8, 5), vec![8, 9]);
    assert_eq!(paginate(v.clone(), -4, 2), vec![0, 1]);
    assert_eq!(paginate(v.clone(), 2, 0), vec![2]);
    assert!(paginate(v.clone(), 12, 3).is_empty());
}

// ── JSON ─────────────────────────────────────────────────────────────────────

#[test]
fn json_text_of_values() {
    let v = obj(vec![("b", JsonValue::Bool(true)), ("a", num("1")), ("s", json_str("x"))]);
    assert_eq!(message_content_text(&v), r#"{"a":1,"b":true,"s":"x"}"#);
    assert_eq!(message_content_text(&JsonValue::Null), "null");
    assert_eq!(message_content_text(&JsonValue::Array(vec![num("0.7"), json_str("q")])), r#"[0.7,"q"]"#);
}

#[test]
fn merge_sets_and_keeps_members() {
    let mut target = obj(vec![("test", JsonValue::Bool(true)), ("n", num("1"))]);
    merge_objects(&mut target, obj(vec![("n", num("2")), ("updated", JsonValue::Bool(true))]));
    assert_eq!(target.get("test"), Some(&JsonValue::Bool(true)));
    assert_eq!(target.get("n"), Some(&num("2")));
    assert_eq!(target.get("updated"), Some(&JsonValue::Bool(true)));
    let mut s = json_str("x");
    merge_objects(&mut s, obj(vec![("n", num("2"))]));
    assert_eq!(s, json_str("x"));
}

#[test]
fn json_accessors() {
    let v = obj(vec![("k", num("42")), ("neg", num("-1")), ("big", num("18446744073709551616"))]);
    assert_eq!(v.get("k").and_then(|x| x.as_u64()), Some(42));
    assert_eq!(v.get("neg").and_then(|x| x.as_u64()), None);
    assert_eq!(v.get("big").and_then(|x| x.as_u64()), None);
    assert!(v.get("missing").is_none());
    assert!(json_str("x").get("k").is_none());
    assert_eq!(object1("a", JsonValue::Null).get("a"), Some(&JsonValue::Null));
}

// ── Inference input ──────────────────────────────────────────────────────────

#[test]
fn test_run_with_string_input() {
    let msgs = extract_messages(&Some(json_str("Hello, what is 1+1?")));
    assert_eq!(msgs.len(), 1);
    assert!(matches!(&msgs[0], ChatMessage::User(t) if t == "Hello, what is 1+1?"));
}

#[test]
fn messages_array_input_maps_roles() {
    let item = |r: &str, c: &str| obj(vec![("role", json_str(r)), ("content", json_str(c))]);
    let input = obj(vec![(
        "messages",
        JsonValue::Array(vec![
            item("system", "be brief"),
            item("user", "hi"),
            item("assistant", "hello"),
            item("tool", "ignored"),
            obj(vec![("role", json_str("user"))]),
        ]),
    )]);
    let msgs = extract_messages(&Some(input));
    assert_eq!(msgs.len(), 3);
    assert!(matches!(&msgs[0], ChatMessage::System(t) if t == "be brief"));
    assert!(matches!(&msgs[1], ChatMessage::User(t) if t == "hi"));
    assert!(matches!(&msgs[2], ChatMessage::Assistant(t) if t == "hello"));
}

#[test]
fn bare_array_and_content_object_inputs() {
    let arr = JsonValue::Array(vec![obj(vec![("role", json_str("user")), ("content", json_str("a"))])]);
    assert_eq!(extract_messages(&Some(arr)).len(), 1);
    let one = obj(vec![("content", json_str("single"))]);
    let msgs = extract_messages(&Some(one));
    assert!(matches!(&msgs[0], ChatMessage::User(t) if t == "single"));
    assert!(extract_messages(&Some(num("3"))).is_empty());
    assert!(extract_messages(&None).is_empty());
}

#[test]
fn message_list_puts_conversation_first() {
    let history = vec![msg("user", json_str("My name is Alice.")), msg("assistant", json_str("Hi Alice"))];
    let msgs = build_message_list(Some(&history), &Some(json_str("What is my name?")));
    assert_eq!(msgs.len(), 3);
    assert!(matches!(&msgs[0], ChatMessage::User(t) if t == "My name is Alice."));
    assert!(matches!(&msgs[1], ChatMessage::Assistant(t) if t == "Hi Alice"));
    assert!(matches!(&msgs[2], ChatMessage::User(t) if t == "What is my name?"));
    assert_eq!(message_content_text(&obj(vec![("x", num("1"))])), r#"{"x":1}"#);
    assert_eq!(message_content_text(&json_str("plain")), "plain");
}

#[test]
fn test_run_with_config() {
    let cfg = RunConfig {
        tags: None,
        recursion_limit: None,
        configurable: Some(obj(vec![("temperature", num("0.7")), ("max_tokens", num("10")), ("top_p", num("0.9"))])),
    };
    let c = extract_config(&Some(cfg));
    assert_eq!(c.temperature.as_deref(), Some("0.7"));
    assert_eq!(c.max_tokens, Some(10));
    assert_eq!(c.top_p.as_deref(), Some("0.9"));
    let c = extract_config(&None);
    assert!(c.temperature.is_none() && c.max_tokens.is_none() && c.top_p.is_none());
    let odd = RunConfig {
        tags: None,
        recursion_limit: None,
        configurable: Some(obj(vec![("temperature", json_str("hot")), ("max_tokens", num("-5"))])),
    };
    let c = extract_config(&Some(odd));
    assert!(c.temperature.is_none());
    assert!(c.max_tokens.is_none());
}

// ── Metric labels ────────────────────────────────────────────────────────────

#[test]
fn uuid_segments_become_id() {
    let p = "/threads/67e55044-10b1-426f-9247-bb680e5fe0c8/runs/67E55044-10B1-426F-9247-BB680E5FE0C8/wait";
    assert_eq!(normalise_path(p), "/threads/{id}/runs/{id}/wait");
    assert_eq!(normalise_path("/agents/search"), "/agents/search");
    assert_eq!(normalise_path(""), "");
    assert_eq!(normalise_path("/"), "/");
    assert_eq!(normalise_path("/threads/my-thread"), "/threads/my-thread");
    let once = normalise_path(p);
    assert_eq!(normalise_path(&once), once);
    // 36 hex digits and hyphens, but not grouped 8-4-4-4-12: kept.
    let a36 = format!("/x/{}", "a".repeat(36));
    assert_eq!(normalise_path(&a36), a36);
    let d36 = format!("/x/{}", "-".repeat(36));
    assert_eq!(normalise_path(&d36), d36);
    assert_eq!(normalise_path("/x/67e5504410b1-426f-9247-bb680e5fe0c8a"), "/x/67e5504410b1-426f-9247-bb680e5fe0c8a");
    // 36 characters but not all hex digits: kept.
    assert_eq!(
        normalise_path("/x/zze55044-10b1-426f-9247-bb680e5fe0c8"),
        "/x/zze55044-10b1-426f-9247-bb680e5fe0c8"
    );
}

#[test]
fn issued_ids_are_labelled_and_segments_kept() {
    // The message of a missing run holds the id as the server writes it.
    let st = AppState::new(1, 1);
    let e = st.get_stateless_run(0xabcdef0123456789abcdef0123456789u128).unwrap_err();
    let id_text = e.message.strip_prefix("Run not found: ").unwrap().to_string();
    assert_eq!(id_text, "abcdef01-2345-6789-abcd-ef0123456789");
    let path = format!("/runs/{id_text}/wait");
    let r = normalise_path(&path);
    assert_eq!(r, "/runs/{id}/wait");
    assert_eq!(r.split('/').count(), path.split('/').count());
    let p = "a//67e55044-10b1-426f-9247-bb680e5fe0c8/";
    let r = normalise_path(p);
    let segs: Vec<&str> = r.split('/').collect();
    assert_eq!(segs, vec!["a", "", "{id}", ""]);
}

// ── Health ───────────────────────────────────────────────────────────────────

#[test]
fn health_report_counts_what_the_server_holds() {
    let mut st = AppState::new(64, 300);
    st.register_agent(foundry_acp::agents::make_agent_entry(foundry_acp::agents::ModelInfo {
        alias: "qwen2.5-0.5b".to_string(),
        model_type: "chat".to_string(),
        display_name: None,
        name: "q".to_string(),
        version: "1".to_string(),
        is_loaded: false,
    }));
    let r = st.health_report("0.1.0", 12);
    assert_eq!(r.status, "ok");
    assert_eq!(r.version, "0.1.0");
    assert_eq!(r.acp_spec_version, "0.2.3");
    assert_eq!(r.uptime_seconds, 12);
    assert_eq!(r.agents_registered, 1);
    assert_eq!(r.threads_active, 0);
    assert_eq!(r.runs_active, 0);
    assert_eq!(r.models.len(), 1);
    assert_eq!(r.models[0].alias, "qwen2.5-0.5b");
    assert_eq!(r.models[0].agent_id, "cbd4a7f8-fa93-566c-80a4-06a833af53b8");
    assert!(!r.models[0].loaded);
    let clock = ServerClock::new();
    assert_eq!(st.health_check(&clock, "0.1.0").uptime_seconds, 0);
}

#[test]
fn start_time_is_recorded_once() {
    let mut clock = ServerClock::new();
    assert_eq!(clock.uptime_secs(), 0);
    record_start_time(&mut clock);
    let first = clock.start;
    assert!(first.is_some());
    record_start_time(&mut clock);
    assert_eq!(clock.start, first);
    assert!(clock.uptime_secs() < 5);
}

// ── Persistence ──────────────────────────────────────────────────────────────

#[test]
fn stored_status_texts() {
    assert_eq!(thread_status_text(ThreadStatus::Idle), "idle");
    assert_eq!(thread_status_text(ThreadStatus::Busy), "busy");
    assert_eq!(thread_status_text(ThreadStatus::Interrupted), "interrupted");
    assert_eq!(thread_status_text(ThreadStatus::Error), "error");
    assert_eq!(run_status_text(RunStatus::Success), "success");
    assert_eq!(run_status_text(RunStatus::Error), "error");
    assert_eq!(run_status_text(RunStatus::Timeout), "timeout");
    assert_eq!(run_status_text(RunStatus::Pending), "pending");
    assert_eq!(run_status_text(RunStatus::Interrupted), "pending");
}

#[test]
fn stored_metadata_merge() {
    let stored = obj(vec![("a", num("1")), ("b", num("2"))]);
    let merged = merged_metadata(Some(stored), obj(vec![("b", num("3")), ("c", num("4"))]));
    assert_eq!(merged, obj(vec![("a", num("1")), ("b", num("3")), ("c", num("4"))]));
    // Storing the patched metadata over what it was patched from gives it back.
    let again = merged_metadata(Some(obj(vec![("a", num("1")), ("b", num("2"))])), merged.clone());
    assert_eq!(again, merged);
    let fresh = merged_metadata(None, obj(vec![("c", num("4"))]));
    assert_eq!(fresh, obj(vec![("c", num("4"))]));
    let kept = merged_metadata(Some(json_str("x")), obj(vec![("c", num("4"))]));
    assert_eq!(kept, json_str("x"));
    assert_eq!(merged_metadata(None, JsonValue::Null), empty_object());
    let row = StoredThread {
        thread_id: "t".to_string(),
        status: thread_status_text(ThreadStatus::Idle).to_string(),
        metadata: "{}".to_string(),
        messages: "[]".to_string(),
        created_at: "2024-01-01T00:00:00+00:00".to_string(),
        updated_at: "2024-01-01T00:00:00+00:00".to_string(),
    };
    assert_eq!(row.status, "idle");
}

#[test]
fn stored_metadata_text_merge() {
    let patch = obj(vec![("b", json_str("x")), ("c", num("4"))]);
    assert_eq!(merged_metadata_text(r#"{"a":1,"b":2}"#, patch), r#"{"a":1,"b":"x","c":4}"#);
    // A stored text that is not JSON counts as an empty object.
    assert_eq!(merged_metadata_text("not json", obj(vec![("c", num("4"))])), r#"{"c":4}"#);
    // A stored value that is not an object is kept as it is.
    assert_eq!(merged_metadata_text("[1,2]", obj(vec![("c", num("4"))])), "[1,2]");
    assert_eq!(merged_metadata_text("{}", JsonValue::Null), "{}");
}

// ── Embeddings ───────────────────────────────────────────────────────────────

#[test]
fn embedding_input_validation() {
    assert!(EmbeddingClient::validate_input("hello").is_ok());
    assert!(EmbeddingClient::validate_input("  x  ").is_ok());
    for blank in ["", "   ", "\t\n", "\u{00a0}\u{3000}"] {
        match EmbeddingClient::validate_input(blank) {
            Err(FoundryLocalError::Validation { reason }) => assert_eq!(reason, "input must be a non-empty string"),
            other => panic!("unexpected {other:?}"),
        }
    }
}

#[test]
fn embedding_request_and_command() {
    let client = EmbeddingClient::new("text-embedding-small");
    assert_eq!(client.model_id, "text-embedding-small");
    let req = client.build_request(json_str("hi"));
    assert_eq!(req, obj(vec![("model", json_str("text-embedding-small")), ("input", json_str("hi"))]));
    let cmd = client.embedding_command("hi").unwrap();
    let text = cmd.get("Params").and_then(|p| p.get("OpenAICreateRequest")).and_then(|t| t.as_str()).unwrap();
    assert_eq!(text, r#"{"input":"hi","model":"text-embedding-small"}"#);
    assert_eq!(command_params(&req), cmd);
    assert!(client.embedding_command(" ").is_err());
}

#[test]
fn embeddings_command_checks_every_input() {
    let client = EmbeddingClient::new("m");
    match client.embeddings_command(&[]) {
        Err(FoundryLocalError::Validation { reason }) => assert_eq!(reason, "inputs must be a non-empty array"),
        other => panic!("unexpected {other:?}"),
    }
    match client.embeddings_command(&["a", " "]) {
        Err(FoundryLocalError::Validation { reason }) => assert_eq!(reason, "input must be a non-empty string"),
        other => panic!("unexpected {other:?}"),
    }
    let cmd = client.embeddings_command(&["a", "b"]).unwrap();
    let text = cmd.get("Params").and_then(|p| p.get("OpenAICreateRequest")).and_then(|t| t.as_str()).unwrap();
    assert_eq!(text, r#"{"input":["a","b"],"model":"m"}"#);
}

#[test]
fn embedding_response_gets_defaults() {
    let raw = obj(vec![(
        "data",
        JsonValue::Array(vec![
            obj(vec![("index", num("0")), ("embedding", JsonValue::Array(vec![num("0.5")]))]),
            obj(vec![("index", num("1")), ("object", json_str("custom"))]),
        ]),
    )]);
    let done = complete_embedding_response(raw);
    let data = done.get("data").and_then(|d| d.as_array()).unwrap();
    assert_eq!(data[0].get("object"), Some(&json_str("embedding")));
    assert_eq!(data[1].get("object"), Some(&json_str("custom")));
    let usage = done.get("usage").unwrap();
    assert_eq!(usage.get("prompt_tokens"), Some(&num("0")));
    assert_eq!(usage.get("total_tokens"), Some(&num("0")));
    // Completing again changes nothing.
    assert_eq!(complete_embedding_response(done.clone()), done);
    let empty = complete_embedding_response(obj(vec![]));
    assert_eq!(empty.get("usage").unwrap().get("total_tokens"), Some(&num("0")));
    assert_eq!(complete_embedding_response(json_str("x")), json_str("x"));
}

#[test]
fn embedding_reply_is_read_and_completed() {
    let raw = r#"{"data":[{"embedding":[0.5,0.25],"index":0}],"model":"m"}"#;
    let done = embedding_reply(raw).unwrap();
    let data = done.get("data").and_then(|d| d.as_array()).unwrap();
    assert_eq!(data.len(), 1);
    assert_eq!(data[0].get("object"), Some(&json_str("embedding")));
    assert_eq!(data[0].get("index"), Some(&num("0")));
    assert_eq!(
        data[0].get("embedding"),
        Some(&JsonValue::Array(vec![num("0.5"), num("0.25")]))
    );
    assert_eq!(done.get("model"), Some(&json_str("m")));
    assert_eq!(done.get("usage").unwrap().get("prompt_tokens"), Some(&num("0")));
    assert!(embedding_reply("{not json").is_none());
    assert!(embedding_reply("").is_none());
}
