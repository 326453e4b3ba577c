use ai_tools_hub::chat::WireMessage;
use ai_tools_hub::tool_layer::{ToolCall, ToolDef, ToolRegistry, ToolResult};
use ai_tools_hub::tools::{
    builtin_def, execute_tool_calls, init_builtin_tools, memory_save_args, path_refused,
    query_args, read_file_args, required_param, run_code_args, run_code_command_args,
    search_knowledge_args, snippet, web_search_failed, write_file_args, BUILTIN_COUNT,
};
use serde_json::Value;

type Handler = fn(Value) -> ToolResult;

fn json(text: &str) -> Value {
    serde_json::from_str(text).unwrap()
}

fn h0(_: Value) -> ToolResult {
    ToolResult::ok(json("0"))
}
fn h1(_: Value) -> ToolResult {
    ToolResult::ok(json("1"))
}
fn echo(p: Value) -> ToolResult {
    ToolResult::ok(p)
}

#[test]
fn builtin_definitions() {
    let names: Vec<String> = (0..BUILTIN_COUNT).map(|i| builtin_def(i).name).collect();
    assert_eq!(
        names,
        vec!["read_file", "write_file", "search_knowledge", "web_search", "memory_search", "memory_save", "run_code"]
    );
    let d = builtin_def(2);
    assert_eq!(d.description, "Search the knowledge base (indexed markdown files) for relevant documents.");
    assert_eq!(d.parameters["properties"]["limit"]["default"], 5);
    assert_eq!(d.parameters["required"], json(r#"["query"]"#));
    let run = builtin_def(6);
    assert_eq!(run.parameters["properties"]["language"]["enum"], json(r#"["python","javascript","shell"]"#));
    let w = builtin_def(1);
    assert_eq!(w.parameters["required"], json(r#"["path","content"]"#));
    assert_eq!(
        builtin_def(0).parameters["properties"]["path"]["description"],
        "File path relative to vault root (e.g. 'notes/meeting.md')"
    );
}

#[test]
fn init_registers_all_builtins_in_order_and_marks_ready() {
    let mut reg: ToolRegistry<Handler> = ToolRegistry::new();
    let handlers: Vec<Handler> = vec![h0, h1, h0, h1, h0, h1, echo];
    init_builtin_tools(&mut reg, handlers);
    assert!(reg.is_ready());
    let defs = reg.list_defs();
    assert_eq!(defs.len(), 7);
    assert_eq!(defs[3].name, "web_search");
    assert_eq!(reg.execute("write_file", Value::Null).value, json("1"));
    assert_eq!(reg.execute("run_code", json(r#"{"a":2}"#)).value["a"], 2);
}

#[test]
fn init_keeps_other_tools() {
    let mut reg: ToolRegistry<Handler> = ToolRegistry::new();
    reg.register(ToolDef { name: "mine".into(), description: "m".into(), parameters: Value::Null }, echo);
    reg.register(ToolDef { name: "read_file".into(), description: "old".into(), parameters: Value::Null }, echo);
    init_builtin_tools(&mut reg, vec![h0, h1, h0, h1, h0, h1, h0]);
    let defs = reg.list_defs();
    assert_eq!(defs.len(), 8);
    assert_eq!(defs[0].name, "mine");
    assert_eq!(reg.get_def("read_file").unwrap().description, builtin_def(0).description);
}

#[test]
fn missing_parameters_are_refused() {
    assert_eq!(read_file_args(&json("{}")).unwrap_err(), "Missing 'path' parameter");
    assert_eq!(read_file_args(&json(r#"{"path": 3}"#)).unwrap_err(), "Missing 'path' parameter");
    assert_eq!(read_file_args(&json(r#"{"path": ""}"#)).unwrap_err(), "Missing 'path' parameter");
    assert_eq!(read_file_args(&json(r#"{"path": "a.md"}"#)).unwrap(), "a.md");
    assert_eq!(query_args(&json(r#"{"q": "x"}"#)).unwrap_err(), "Missing 'query' parameter");
    assert_eq!(memory_save_args(&json(r#"{"keywords": "k"}"#)).unwrap_err(), "Missing 'content' parameter");
    assert_eq!(required_param(&Value::Null, "anything").unwrap_err(), "Missing 'anything' parameter");
}

#[test]
fn optional_parameters_default() {
    assert_eq!(
        write_file_args(&json(r#"{"path": "p.md"}"#)).unwrap(),
        ("p.md".to_string(), String::new())
    );
    assert_eq!(
        search_knowledge_args(&json(r#"{"query": "rust"}"#)).unwrap(),
        ("rust".to_string(), 5)
    );
    assert_eq!(
        search_knowledge_args(&json(r#"{"query": "rust", "limit": 2}"#)).unwrap(),
        ("rust".to_string(), 2)
    );
    assert_eq!(
        memory_save_args(&json(r#"{"content": "fact"}"#)).unwrap(),
        ("fact".to_string(), String::new())
    );
}

#[test]
fn run_code_languages() {
    let p = run_code_args(&json(r#"{"code": "print(1)"}"#)).unwrap();
    assert_eq!((p.language.as_str(), p.interpreter.as_str(), p.extension.as_str()), ("python", "python", ".py"));
    let p = run_code_args(&json(r#"{"code": "x", "language": "javascript"}"#)).unwrap();
    assert_eq!((p.interpreter.as_str(), p.extension.as_str()), ("node", ".js"));
    let p = run_code_args(&json(r#"{"code": "dir", "language": "shell"}"#)).unwrap();
    assert_eq!((p.interpreter.as_str(), p.extension.as_str()), ("cmd.exe", ".bat"));
    assert_eq!(run_code_command_args(&p, "f.bat"), vec!["/c".to_string(), "f.bat".to_string()]);
    let py = run_code_args(&json(r#"{"code": "x"}"#)).unwrap();
    assert_eq!(run_code_command_args(&py, "f.py"), vec!["f.py".to_string()]);
    assert_eq!(
        run_code_args(&json(r#"{"code": "x", "language": "ruby"}"#)).unwrap_err(),
        "Unsupported language: ruby"
    );
    assert_eq!(
        run_code_args(&json(r#"{"language": "ruby"}"#)).unwrap_err(),
        "Missing 'code' parameter"
    );
}

#[test]
fn messages_and_snippets() {
    assert_eq!(path_refused("outside"), "Path not allowed: outside");
    assert_eq!(web_search_failed("offline"), "Web search failed: offline");
    assert_eq!(snippet("héllo world", 5), "héllo");
    assert_eq!(snippet("short", 500), "short");
}

#[test]
fn executing_a_batch_of_calls() {
    let mut reg: ToolRegistry<Handler> = ToolRegistry::new();
    reg.register(ToolDef { name: "echo".into(), description: String::new(), parameters: Value::Null }, echo);
    let calls = vec![
        ToolCall { index: 0, name: "echo".into(), arguments: json(r#"{"a":1}"#) },
        ToolCall { index: 1, name: "nope".into(), arguments: Value::Null },
    ];
    let out = execute_tool_calls(&reg, &calls);
    assert_eq!(out.len(), 2);
    match &out[0] {
        WireMessage::ToolOutput { tool_call_id, name, content } => {
            assert_eq!(tool_call_id, "call_0");
            assert_eq!(name, "echo");
            assert_eq!(content, r#"{"a":1}"#);
        }
        other => panic!("unexpected {:?}", other),
    }
    match &out[1] {
        WireMessage::ToolOutput { tool_call_id, content, .. } => {
            assert_eq!(tool_call_id, "call_1");
            assert_eq!(content, "null");
        }
        other => panic!("unexpected {:?}", other),
    }
}
