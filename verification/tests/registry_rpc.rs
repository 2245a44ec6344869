use rewind_core::registry::ProcessRegistry;
use rewind_core::errors::CoreError;
use rewind_core::rpc::{
    REQUEST_TIMEOUT_SECS, RpcIdCounter, backslashes_to_slashes, build_notification_line,
    build_request_line, extract_tool_text, initialize_params_text, parse_rpc_response_line,
    search_context_params_text,
};
use rewind_core::spawn::fresh_session_id;

#[test]
fn cancel_all_then_single_cancel_is_noop() {
    let mut registry: ProcessRegistry<u32> = ProcessRegistry::new();
    registry.insert("a".to_string(), 11);
    registry.insert("b".to_string(), 22);
    assert_eq!(registry.len(), 2);
    let drained = registry.drain();
    assert_eq!(drained.len(), 2);
    assert_eq!(registry.len(), 0);
    // a later cancel of "a" observes absence: a warning, not an error
    assert!(registry.remove("a").is_none());
    assert_eq!(registry.len(), 0);
}

#[test]
fn first_remover_wins() {
    let mut registry: ProcessRegistry<u32> = ProcessRegistry::new();
    registry.insert("a".to_string(), 5);
    let first = registry.remove("a");
    assert_eq!(first, Some(5));
    let second = registry.remove("a");
    assert_eq!(second, None);
}

#[test]
fn insert_replaces_same_id() {
    let mut registry: ProcessRegistry<u32> = ProcessRegistry::new();
    registry.insert("a".to_string(), 1);
    registry.insert("a".to_string(), 2);
    assert_eq!(registry.len(), 1);
    assert_eq!(registry.remove("a"), Some(2));
}

#[test]
fn request_line_is_valid_json_rpc() {
    let line = build_request_line(7, "initialize", Some(initialize_params_text().as_str()));
    assert!(line.ends_with('\n'));
    let v: serde_json::Value = serde_json::from_str(&line).unwrap();
    assert_eq!(v["jsonrpc"].as_str(), Some("2.0"));
    assert_eq!(v["id"].as_u64(), Some(7));
    assert_eq!(v["method"].as_str(), Some("initialize"));
    assert_eq!(v["params"]["protocolVersion"].as_str(), Some("2024-11-05"));
    assert_eq!(v["params"]["clientInfo"]["name"].as_str(), Some("workbench"));
    assert_eq!(v["params"]["clientInfo"]["version"].as_str(), Some("4.1.3"));
    assert!(v["params"]["capabilities"].as_object().unwrap().is_empty());
}

#[test]
fn request_line_escapes_method_and_params_strings() {
    let params = search_context_params_text("C:/proj \"x\"", "line\nbreak\tand \\ stuff");
    let line = build_request_line(1, "tools/call", Some(params.as_str()));
    let v: serde_json::Value = serde_json::from_str(&line).unwrap();
    assert_eq!(v["method"].as_str(), Some("tools/call"));
    assert_eq!(v["params"]["name"].as_str(), Some("search_context"));
    assert_eq!(
        v["params"]["arguments"]["project_root_path"].as_str(),
        Some("C:/proj \"x\"")
    );
    assert_eq!(
        v["params"]["arguments"]["query"].as_str(),
        Some("line\nbreak\tand \\ stuff")
    );
}

#[test]
fn notification_line_has_no_id() {
    let line = build_notification_line("notifications/initialized", None);
    let v: serde_json::Value = serde_json::from_str(&line).unwrap();
    assert_eq!(v["jsonrpc"].as_str(), Some("2.0"));
    assert_eq!(v["method"].as_str(), Some("notifications/initialized"));
    assert!(v["params"].is_null());
    assert!(v.get("id").is_none());
}

#[test]
fn id_counter_is_monotone() {
    let mut ids = RpcIdCounter::new();
    assert_eq!(ids.fresh_id(), 1);
    assert_eq!(ids.fresh_id(), 2);
    assert_eq!(ids.fresh_id(), 3);
}

#[test]
fn non_json_reply_is_a_protocol_error() {
    match parse_rpc_response_line("this is not json") {
        Err(CoreError::ProtocolError(m)) => assert_eq!(m, "malformed JSON-RPC response"),
        other => panic!("expected ProtocolError, got {:?}", other),
    }
}

#[test]
fn reply_without_envelope_is_malformed() {
    match parse_rpc_response_line("{\"result\":{\"x\":1}}") {
        Err(CoreError::ProtocolError(m)) => assert_eq!(m, "malformed JSON-RPC response"),
        other => panic!("expected ProtocolError, got {:?}", other),
    }
}

#[test]
fn error_reply_carries_code_and_message() {
    let line = "{\"jsonrpc\":\"2.0\",\"id\":4,\"error\":{\"code\":-32601,\"message\":\"method not found\"}}";
    match parse_rpc_response_line(line) {
        Err(CoreError::ProtocolError(m)) => {
            assert_eq!(m, "MCP error -32601: method not found");
        }
        other => panic!("expected ProtocolError, got {:?}", other),
    }
}

#[test]
fn null_result_reply_is_an_error() {
    let line = "{\"jsonrpc\":\"2.0\",\"id\":4,\"result\":null}";
    match parse_rpc_response_line(line) {
        Err(CoreError::ProtocolError(m)) => assert_eq!(m, "No result in response"),
        other => panic!("expected ProtocolError, got {:?}", other),
    }
}

#[test]
fn success_reply_yields_the_result() {
    let line = "{\"jsonrpc\":\"2.0\",\"id\":4,\"result\":{\"content\":[{\"type\":\"text\",\"text\":\"found it\"}]}}";
    let result = parse_rpc_response_line(line).unwrap();
    assert_eq!(extract_tool_text(&result).unwrap(), "found it");
}

#[test]
fn tool_text_shape_is_checked() {
    let bad: serde_json::Value = serde_json::from_str("{\"content\":[]}").unwrap();
    match extract_tool_text(&bad) {
        Err(CoreError::ProtocolError(m)) => {
            assert_eq!(m, "Invalid search_context response format");
        }
        other => panic!("expected ProtocolError, got {:?}", other),
    }
    let no_text: serde_json::Value =
        serde_json::from_str("{\"content\":[{\"type\":\"text\"}]}").unwrap();
    assert!(extract_tool_text(&no_text).is_err());
}

#[test]
fn backslashes_become_slashes() {
    assert_eq!(backslashes_to_slashes("C:\\work\\proj"), "C:/work/proj");
    assert_eq!(backslashes_to_slashes("/already/fine"), "/already/fine");
}

#[test]
fn session_ids_are_prefixed_and_fresh() {
    let a = fresh_session_id();
    let b = fresh_session_id();
    assert_eq!(a.len(), 42);
    assert!(a.starts_with("codex-"));
    assert_ne!(a, b);
}

#[test]
fn request_timeout_is_thirty_seconds() {
    assert_eq!(REQUEST_TIMEOUT_SECS, 30);
}
