use foundry_acp::acp_types::AgentSearchRequest;
use foundry_acp::agents::{make_agent_entry, ModelInfo};
use foundry_acp::error::NOT_FOUND;
use foundry_acp::json::JsonValue;
use foundry_acp::state::{agent_id_from_alias, AppState};

fn model(alias: &str, loaded: bool) -> ModelInfo {
    ModelInfo {
        alias: alias.to_string(),
        model_type: "chat".to_string(),
        display_name: None,
        name: format!("{alias}-generic-cpu"),
        version: "1".to_string(),
        is_loaded: loaded,
    }
}

fn state_with(aliases: &[&str]) -> AppState {
    let mut st = AppState::new(64, 300);
    for a in aliases {
        st.register_agent(make_agent_entry(model(a, true)));
    }
    st
}

fn search(name: Option<&str>, limit: i64, offset: i64) -> AgentSearchRequest {
    AgentSearchRequest { name: name.map(|n| n.to_string()), version: None, limit, offset }
}

#[test]
fn agent_id_is_uuid5_of_alias_in_dns_namespace() {
    assert_eq!(agent_id_from_alias("qwen2.5-0.5b"), 0xcbd4a7f8fa93566c80a406a833af53b8u128);
    assert_eq!(agent_id_from_alias("phi-4-mini"), 0x829c3c5a71295fe3a7d9b8300addc886u128);
}

#[test]
fn agent_id_is_deterministic() {
    assert_eq!(agent_id_from_alias("phi-4-mini"), agent_id_from_alias("phi-4-mini"));
    assert_ne!(agent_id_from_alias("phi-4-mini"), agent_id_from_alias("phi-4"));
}

#[test]
fn agent_entry_describes_the_model() {
    let mut info = model("qwen2.5-0.5b", false);
    info.display_name = Some("Qwen 2.5 0.5B".to_string());
    let e = make_agent_entry(info);
    assert_eq!(e.agent.agent_id, agent_id_from_alias("qwen2.5-0.5b"));
    assert_eq!(e.agent.metadata.agent_ref.name, "qwen2.5-0.5b");
    assert_eq!(e.agent.metadata.agent_ref.version, "1");
    assert_eq!(e.agent.metadata.description, "Foundry Local model 'qwen2.5-0.5b' (chat) \u{2014} Qwen 2.5 0.5B");
    assert_eq!(e.model_alias, "qwen2.5-0.5b");
    assert!(!e.is_loaded);
    let caps = &e.descriptor.specs.capabilities;
    assert!(caps.threads);
    assert!(!caps.interrupts);
    assert!(!caps.callbacks);
    assert_eq!(caps.streaming.unwrap().values, Some(true));
    assert_eq!(caps.streaming.unwrap().custom, Some(false));
    assert!(e.descriptor.specs.thread_state.is_some());
}

#[test]
fn agent_description_falls_back_to_model_name() {
    let e = make_agent_entry(model("phi-4-mini", true));
    assert_eq!(e.agent.metadata.description, "Foundry Local model 'phi-4-mini' (chat) \u{2014} phi-4-mini-generic-cpu");
}

#[test]
fn input_schema_requires_messages() {
    let e = make_agent_entry(model("phi-4-mini", true));
    let input = &e.descriptor.specs.input;
    match input.get("required") {
        Some(JsonValue::Array(items)) => {
            assert_eq!(items.len(), 1);
            assert_eq!(items[0].as_str(), Some("messages"));
        }
        other => panic!("unexpected required: {other:?}"),
    }
    assert_eq!(input.get("type").and_then(|t| t.as_str()), Some("object"));
    let config = &e.descriptor.specs.config;
    let temp = config.get("properties").and_then(|p| p.get("temperature")).unwrap();
    assert_eq!(temp.get("maximum"), Some(&JsonValue::Number("2.0".to_string())));
}

#[test]
fn test_search_agents_returns_array() {
    let st = state_with(&["qwen2.5-0.5b", "phi-4-mini"]);
    let found = st.search_agents(&search(None, 10, 0));
    assert_eq!(found.len(), 2);
    for a in &found {
        assert!(!a.metadata.agent_ref.name.is_empty());
        assert!(!a.metadata.agent_ref.version.is_empty());
        assert!(!a.metadata.description.is_empty());
    }
}

#[test]
fn search_orders_agents_by_name() {
    let st = state_with(&["qwen2.5-0.5b", "mistral-7b", "phi-4-mini"]);
    let found = st.search_agents(&search(None, 10, 0));
    let names: Vec<&str> = found.iter().map(|a| a.metadata.agent_ref.name.as_str()).collect();
    assert_eq!(names, vec!["mistral-7b", "phi-4-mini", "qwen2.5-0.5b"]);
}

#[test]
fn test_search_agents_with_name_filter() {
    let st = state_with(&["qwen2.5-0.5b", "qwen2.5-1.5b", "phi-4-mini"]);
    let found = st.search_agents(&search(Some("qwen"), 10, 0));
    assert_eq!(found.len(), 2);
    for a in &found {
        assert!(a.metadata.agent_ref.name.contains("qwen"));
    }
    assert!(st.search_agents(&search(Some("llama"), 10, 0)).is_empty());
}

#[test]
fn search_filters_by_version() {
    let st = state_with(&["qwen2.5-0.5b", "phi-4-mini"]);
    let req = AgentSearchRequest { name: None, version: Some("1".to_string()), limit: 10, offset: 0 };
    assert_eq!(st.search_agents(&req).len(), 2);
    let req = AgentSearchRequest { name: None, version: Some("2".to_string()), limit: 10, offset: 0 };
    assert!(st.search_agents(&req).is_empty());
}

#[test]
fn test_search_agents_pagination() {
    let st = state_with(&["qwen2.5-0.5b", "mistral-7b", "phi-4-mini"]);
    let page = st.search_agents(&search(None, 1, 0));
    assert_eq!(page.len(), 1);
    assert_eq!(page[0].metadata.agent_ref.name, "mistral-7b");
    let page = st.search_agents(&search(None, 1, 2));
    assert_eq!(page[0].metadata.agent_ref.name, "qwen2.5-0.5b");
    // A limit below one still returns one agent; an offset past the end none.
    assert_eq!(st.search_agents(&search(None, 0, 0)).len(), 1);
    assert!(st.search_agents(&search(None, 5, 7)).is_empty());
    assert_eq!(st.search_agents(&search(None, 5, -3)).len(), 3);
}

#[test]
fn test_get_agent_by_id() {
    let st = state_with(&["qwen2.5-0.5b", "phi-4-mini"]);
    let id = agent_id_from_alias("phi-4-mini");
    let a = st.get_agent(id).unwrap();
    assert_eq!(a.agent_id, id);
    assert_eq!(a.metadata.agent_ref.name, "phi-4-mini");
}

#[test]
fn test_get_agent_not_found() {
    let st = state_with(&["qwen2.5-0.5b"]);
    let e = st.get_agent(agent_id_from_alias("phi-4-mini")).unwrap_err();
    assert_eq!(e.message, "Agent not found: 829c3c5a-7129-5fe3-a7d9-b8300addc886");
    let e = st.get_agent(0).unwrap_err();
    assert_eq!(e.status, NOT_FOUND);
    assert_eq!(e.message, "Agent not found: 00000000-0000-0000-0000-000000000000");
    let e = st.get_agent_descriptor(0).unwrap_err();
    assert_eq!(e.status, 404);
}

#[test]
fn test_get_agent_descriptor() {
    let st = state_with(&["qwen2.5-0.5b"]);
    let d = st.get_agent_descriptor(agent_id_from_alias("qwen2.5-0.5b")).unwrap();
    assert_eq!(d.metadata.agent_ref.name, "qwen2.5-0.5b");
    assert!(d.specs.capabilities.threads);
    assert!(!d.specs.capabilities.interrupts);
    assert_eq!(d.specs.capabilities.streaming.unwrap().values, Some(true));
    assert!(d.specs.input.get("properties").is_some());
    assert!(d.specs.output.get("properties").is_some());
    assert!(d.specs.config.get("properties").is_some());
}

#[test]
fn registering_an_agent_again_replaces_it() {
    let mut st = state_with(&["qwen2.5-0.5b"]);
    st.register_agent(make_agent_entry(model("qwen2.5-0.5b", false)));
    assert_eq!(st.agent_count(), 1);
    assert!(!st.agent_entries()[0].is_loaded);
}

#[test]
fn resolve_agent_by_uuid_alias_or_default() {
    let st = state_with(&["qwen2.5-0.5b", "phi-4-mini"]);
    let id = agent_id_from_alias("phi-4-mini");
    assert_eq!(st.resolve_agent_id(Some("phi-4-mini")).unwrap(), id);
    assert_eq!(st.resolve_agent_id(Some("829c3c5a-7129-5fe3-a7d9-b8300addc886")).unwrap(), id);
    assert_eq!(st.resolve_agent_id(None).unwrap(), agent_id_from_alias("qwen2.5-0.5b"));
    let e = st.resolve_agent_id(Some("llama")).unwrap_err();
    assert_eq!(e.status, 404);
    assert_eq!(e.message, "Agent not found: llama");
    let empty = AppState::new(1, 1);
    let e = empty.resolve_agent_id(None).unwrap_err();
    assert_eq!(e.message, "No agents available");
}

#[test]
fn agent_ids_are_version_5_uuids() {
    for alias in ["phi-4-mini", "qwen2.5-0.5b", ""] {
        let id = agent_id_from_alias(alias);
        assert_eq!((id >> 76) & 0xf, 5);
        assert_eq!((id >> 62) & 3, 2);
    }
}
