use ai_tools_hub::tool_layer::{
    result_message_id, unknown_tool, ToolCall, ToolCallAccumulator, ToolCallDelta, ToolDef,
    ToolRegistry, ToolResult,
};
use serde_json::Value;

type Handler = fn(Value) -> ToolResult;

fn json(text: &str) -> Value {
    serde_json::from_str(text).unwrap()
}

fn ok_handler(_: Value) -> ToolResult {
    ToolResult::ok(json(r#"{"ok": true}"#))
}

fn echo_handler(params: Value) -> ToolResult {
    ToolResult::ok(params)
}

#[test]
fn test_registry_register_and_lookup() {
    let mut registry: ToolRegistry<Handler> = ToolRegistry::new();
    registry.register(
        ToolDef {
            name: "test_tool".into(),
            description: "A test tool".into(),
            parameters: json(r#"{"type": "object", "properties": {}}"#),
        },
        ok_handler,
    );

    let def = registry.get_def("test_tool");
    assert!(def.is_some());
    assert_eq!(def.unwrap().name, "test_tool");

    let unknown = registry.get_def("nonexistent");
    assert!(unknown.is_none());
}

#[test]
fn test_list_defs() {
    let mut registry: ToolRegistry<Handler> = ToolRegistry::new();
    registry.register(
        ToolDef { name: "tool_a".into(), description: "A".into(), parameters: json("{}") },
        ok_handler,
    );
    registry.register(
        ToolDef { name: "tool_b".into(), description: "B".into(), parameters: json("{}") },
        ok_handler,
    );

    let defs = registry.list_defs();
    assert_eq!(defs.len(), 2);
}

#[test]
fn test_execute_success() {
    let mut registry: ToolRegistry<Handler> = ToolRegistry::new();
    registry.register(
        ToolDef {
            name: "echo".into(),
            description: "Echo".into(),
            parameters: json(r#"{"type":"object","properties":{"msg":{"type":"string"}}}"#),
        },
        echo_handler,
    );

    let result = registry.execute("echo", json(r#"{"msg": "hello"}"#));
    assert!(result.success);
    assert_eq!(result.value["msg"], "hello");
}

#[test]
fn test_execute_unknown_tool() {
    let registry: ToolRegistry<Handler> = ToolRegistry::new();
    let result = registry.execute("no_such_tool", json("{}"));
    assert!(!result.success);
    assert!(result.error.unwrap().contains("Unknown tool"));
}

#[test]
fn test_tool_call_accumulator() {
    let mut acc = ToolCallAccumulator::default();

    let chunk1 = json(r#"{"choices": [{"delta": {"tool_calls": [{"index": 0, "function": {"name": "read_file", "arguments": "{\"path\":\""}}]}}]}"#);
    let chunk2 = json(r#"{"choices": [{"delta": {"tool_calls": [{"index": 0, "function": {"arguments": "config.json\"}"}}]}}]}"#);

    assert!(acc.feed(&chunk1));
    assert!(acc.feed(&chunk2));
    assert!(acc.has_pending());

    let calls = acc.collect();
    assert_eq!(calls.len(), 1);
    assert_eq!(calls[0].name, "read_file");
    assert_eq!(calls[0].arguments["path"], "config.json");
    assert!(!acc.has_pending());
}

#[test]
fn registering_a_name_again_replaces_the_tool() {
    let mut registry: ToolRegistry<Handler> = ToolRegistry::new();
    registry.register(
        ToolDef { name: "t".into(), description: "first".into(), parameters: json("{}") },
        ok_handler,
    );
    registry.register(
        ToolDef { name: "t".into(), description: "second".into(), parameters: json("{}") },
        echo_handler,
    );
    let defs = registry.list_defs();
    assert_eq!(defs.len(), 1);
    assert_eq!(defs[0].description, "second");
    let r = registry.execute("t", json(r#"{"x": 1}"#));
    assert_eq!(r.value["x"], 1);
}

#[test]
fn list_defs_keeps_registration_order() {
    let mut registry: ToolRegistry<Handler> = ToolRegistry::new();
    for name in ["c", "a", "b"] {
        registry.register(
            ToolDef { name: name.into(), description: String::new(), parameters: Value::Null },
            ok_handler,
        );
    }
    let names: Vec<String> = registry.list_defs().into_iter().map(|d| d.name).collect();
    assert_eq!(names, vec!["c", "a", "b"]);
}

#[test]
fn registry_is_ready_only_once_marked() {
    let mut registry: ToolRegistry<Handler> = ToolRegistry::new();
    assert!(!registry.is_ready());
    registry.mark_ready();
    assert!(registry.is_ready());
}

#[test]
fn unknown_tool_message_names_the_tool() {
    let r = unknown_tool("frobnicate");
    assert!(!r.success);
    assert_eq!(r.value, Value::Null);
    assert_eq!(r.error.as_deref(), Some("Unknown tool: frobnicate"));
}

#[test]
fn failed_result_is_null_with_message() {
    let r = ToolResult::err("boom".to_string());
    assert!(!r.success);
    assert!(r.value.is_null());
    assert_eq!(r.error.as_deref(), Some("boom"));
}

#[test]
fn accumulator_keeps_calls_apart_by_index_and_in_first_seen_order() {
    let mut acc = ToolCallAccumulator::new();
    acc.feed_deltas(&vec![
        ToolCallDelta { index: Some(1), name: Some("b".into()), arguments: Some("{\"x\":".into()) },
        ToolCallDelta { index: Some(0), name: Some("a".into()), arguments: Some("{}".into()) },
        ToolCallDelta { index: Some(1), name: None, arguments: Some("2}".into()) },
        ToolCallDelta { index: None, name: Some("_more".into()), arguments: None },
    ]);
    let calls = acc.collect();
    assert_eq!(calls.len(), 2);
    assert_eq!(calls[0].index, 1);
    assert_eq!(calls[0].name, "b");
    assert_eq!(calls[0].arguments["x"], 2);
    assert_eq!(calls[1].index, 0);
    assert_eq!(calls[1].name, "a_more");
    assert_eq!(calls[1].arguments, json("{}"));
}

#[test]
fn accumulator_ignores_events_without_tool_calls() {
    let mut acc = ToolCallAccumulator::new();
    assert!(!acc.feed(&json(r#"{"choices":[{"delta":{"content":"hi"}}]}"#)));
    assert!(!acc.feed(&Value::Null));
    assert!(!acc.feed(&Value::String("not json".into())));
    assert!(!acc.has_pending());
}

#[test]
fn arguments_that_are_not_json_become_null() {
    let mut acc = ToolCallAccumulator::new();
    assert!(acc.feed(&json(r#"{"choices":[{"delta":{"tool_calls":[{"index":0,"function":{"name":"x","arguments":"{broken"}}]}}]}"#)));
    let calls = acc.collect();
    assert_eq!(calls.len(), 1);
    assert!(calls[0].arguments.is_null());
}

#[test]
fn result_message_id_is_call_and_index() {
    let c = ToolCall { index: 12, name: "x".into(), arguments: Value::Null };
    assert_eq!(result_message_id(&c), "call_12");
}

#[test]
fn unknown_tool_answers_null() {
    let registry: ToolRegistry<Handler> = ToolRegistry::new();
    let result = registry.execute("no_such_tool", json(r#"{"a": 1}"#));
    assert!(!result.success);
    assert!(result.value.is_null());
    assert_eq!(result.error, unknown_tool("no_such_tool").error);
    assert_eq!(result.error.unwrap(), "Unknown tool: no_such_tool");
}
