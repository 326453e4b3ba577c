use ai_tools_hub::chat::{
    assistant_tool_calls, bearer, completion_system_prompt, completions_url, find_tool,
    initial_messages, last_message_text, plan_completion, tool_output, CompletionRoute,
    CompletionRounds, RoundOutcome, StreamRound, WireMessage, MAX_ROUNDS,
};
use ai_tools_hub::models::{ChatMsg, ToolConfig};
use ai_tools_hub::tool_layer::ToolCall;
use serde_json::Value;

fn tool(id: &str, tool_type: &str, key: &str) -> ToolConfig {
    ToolConfig {
        id: id.into(),
        name: "My Tool".into(),
        icon: String::new(),
        tool_type: tool_type.into(),
        enabled: true,
        provider: String::new(),
        api_base: "https://api.example.com".into(),
        model_name: "model-x".into(),
        api_key: key.into(),
        command: "python".into(),
        args: vec!["-i".into()],
        system_prompt: String::new(),
    }
}

fn msg(role: &str, content: &str) -> ChatMsg {
    ChatMsg { role: role.into(), content: content.into(), toolId: None }
}

#[test]
fn plan_refuses_unknown_tool() {
    let r = plan_completion(&vec![tool("a", "api", "k")], "b", &vec![msg("user", "hi")]);
    assert_eq!(r.unwrap_err(), "tool not found");
}

#[test]
fn plan_process_tool_needs_a_message() {
    let tools = vec![tool("p", "process", "")];
    assert_eq!(plan_completion(&tools, "p", &vec![]).unwrap_err(), "no message");
    match plan_completion(&tools, "p", &vec![msg("user", "one"), msg("user", "two")]).unwrap() {
        CompletionRoute::Process { command, args, message } => {
            assert_eq!(command, "python");
            assert_eq!(args, vec!["-i".to_string()]);
            assert_eq!(message, "two");
        }
        other => panic!("unexpected {:?}", other),
    }
}

#[test]
fn plan_refuses_unknown_type_and_missing_key() {
    let tools = vec![tool("w", "web", "k"), tool("n", "api", "")];
    assert_eq!(
        plan_completion(&tools, "w", &vec![msg("user", "x")]).unwrap_err(),
        "Unknown tool_type 'web' for tool 'My Tool'. Expected 'api' or 'process'."
    );
    assert_eq!(plan_completion(&tools, "n", &vec![msg("user", "x")]).unwrap_err(), "API Key not set: My Tool");
}

#[test]
fn plan_api_tool() {
    match plan_completion(&vec![tool("a", "api", "k1")], "a", &vec![]).unwrap() {
        CompletionRoute::Api { name, api_base, api_key, model_name } => {
            assert_eq!(name, "My Tool");
            assert_eq!(api_base, "https://api.example.com");
            assert_eq!(api_key, "k1");
            assert_eq!(model_name, "model-x");
        }
        other => panic!("unexpected {:?}", other),
    }
}

#[test]
fn find_tool_takes_the_first_match() {
    let tools = vec![tool("x", "api", "1"), tool("a", "api", "2"), tool("a", "api", "3")];
    assert_eq!(find_tool(&tools, "a"), Some(1));
    assert_eq!(find_tool(&tools, "z"), None);
}

#[test]
fn system_prompt_defaults_and_appends_context() {
    assert_eq!(completion_system_prompt("", "\nctx"), "You are a helpful assistant.\nctx");
    assert_eq!(completion_system_prompt("Be terse.", ""), "Be terse.");
    assert_eq!(completions_url("https://h"), "https://h/v1/chat/completions");
    assert_eq!(bearer("abc"), "Bearer abc");
    assert_eq!(last_message_text(&vec![]), "");
    assert_eq!(last_message_text(&vec![msg("user", "a"), msg("assistant", "b")]), "b");
}

#[test]
fn a_round_of_plain_text_answers() {
    let mut r = StreamRound::new(true);
    r.push_text("data: {\"choices\":[{\"delta\":{\"content\":\"Hel\"}}]}\n");
    r.push_chunk(b"data: {\"choices\":[{\"delta\":{\"content\":\"lo\"}}]}\n: keep-alive\n");
    r.push_text("data: [DONE]\n");
    match r.finish() {
        RoundOutcome::Text { content } => assert_eq!(content, "Hello"),
        other => panic!("unexpected {:?}", other),
    }
}

#[test]
fn lines_split_across_chunks_are_joined() {
    let mut r = StreamRound::new(false);
    r.push_text("data: {\"choices\":[{\"delta\":{\"con");
    r.push_text("tent\":\"ok\"}}]}\r\n");
    match r.finish() {
        RoundOutcome::Text { content } => assert_eq!(content, "ok"),
        other => panic!("unexpected {:?}", other),
    }
}

#[test]
fn text_after_done_in_the_same_chunk_is_not_processed() {
    let mut r = StreamRound::new(false);
    r.push_text("data: [DONE]\ndata: {\"choices\":[{\"delta\":{\"content\":\"late\"}}]}\n");
    match r.finish() {
        RoundOutcome::Text { content } => assert_eq!(content, ""),
        other => panic!("unexpected {:?}", other),
    }
}

#[test]
fn a_round_with_tool_calls() {
    let mut r = StreamRound::new(true);
    r.push_text("data: {\"choices\":[{\"delta\":{\"content\":\"thinking\"}}]}\n");
    r.push_text("data: {\"choices\":[{\"delta\":{\"tool_calls\":[{\"index\":0,\"function\":{\"name\":\"web_search\",\"arguments\":\"{\\\"query\\\":\"}}]}}]}\n");
    r.push_text("data: {\"choices\":[{\"delta\":{\"tool_calls\":[{\"index\":0,\"function\":{\"arguments\":\"\\\"rust\\\"}\"}}]}}]}\n");
    match r.finish() {
        RoundOutcome::ToolCalls { content, calls } => {
            assert_eq!(content, "thinking");
            assert_eq!(calls.len(), 1);
            assert_eq!(calls[0].name, "web_search");
            assert_eq!(calls[0].arguments["query"], "rust");
        }
        other => panic!("unexpected {:?}", other),
    }
}

#[test]
fn tool_calls_are_ignored_when_the_model_has_no_tools() {
    let mut r = StreamRound::new(false);
    r.push_text("data: {\"choices\":[{\"delta\":{\"tool_calls\":[{\"index\":0,\"function\":{\"name\":\"x\"}}]}}]}\n");
    match r.finish() {
        RoundOutcome::Text { content } => assert_eq!(content, ""),
        other => panic!("unexpected {:?}", other),
    }
}

#[test]
fn opening_messages() {
    let m = initial_messages("sys".into(), &vec![msg("user", "q"), msg("assistant", "a")]);
    assert_eq!(m.len(), 3);
    match &m[0] {
        WireMessage::Text { role, content } => {
            assert_eq!(role, "system");
            assert_eq!(content, "sys");
        }
        other => panic!("unexpected {:?}", other),
    }
    match &m[2] {
        WireMessage::Text { role, content } => {
            assert_eq!(role, "assistant");
            assert_eq!(content, "a");
        }
        other => panic!("unexpected {:?}", other),
    }
}

#[test]
fn assistant_calls_get_round_ids() {
    let calls = vec![
        ToolCall { index: 0, name: "a".into(), arguments: Value::Null },
        ToolCall { index: 3, name: "b".into(), arguments: serde_json::from_str("{\"k\":1}").unwrap() },
    ];
    match assistant_tool_calls(2, "txt".into(), &calls) {
        WireMessage::AssistantCalls { content, tool_calls } => {
            assert_eq!(content, "txt");
            assert_eq!(tool_calls[0].id, "call_2_0");
            assert_eq!(tool_calls[1].id, "call_2_1");
            assert_eq!(tool_calls[1].name, "b");
            assert_eq!(tool_calls[1].arguments["k"], 1);
        }
        other => panic!("unexpected {:?}", other),
    }
    match tool_output(&calls[1], "out".into()) {
        WireMessage::ToolOutput { tool_call_id, name, content } => {
            assert_eq!(tool_call_id, "call_3");
            assert_eq!(name, "b");
            assert_eq!(content, "out");
        }
        other => panic!("unexpected {:?}", other),
    }
}

#[test]
fn rounds_offer_tools_first_and_stop_after_an_answer() {
    let mut r = CompletionRounds::new();
    assert!(r.running());
    assert!(r.offers_tools(true));
    assert!(!r.offers_tools(false));
    r.tool_round_done();
    assert_eq!(r.current_round(), 1);
    assert!(!r.offers_tools(true));
    r.answer_round_done("final".into());
    assert!(!r.running());
    assert_eq!(r.final_answer(), "final");
}

#[test]
fn rounds_stop_after_the_most_tool_rounds() {
    let mut r = CompletionRounds::new();
    for _ in 0..MAX_ROUNDS {
        assert!(r.running());
        r.tool_round_done();
    }
    assert!(!r.running());
    assert_eq!(r.final_answer(), "");
}

#[test]
fn an_empty_answer_keeps_the_answer_empty() {
    let mut r = CompletionRounds::new();
    r.answer_round_done(String::new());
    assert!(!r.running());
    assert_eq!(r.final_answer(), "");
}
