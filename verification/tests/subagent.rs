use ai_tools_hub::models::ToolConfig;
use ai_tools_hub::subagent::{
    finish_subagent, subagent_outcome, subagent_route, ApiReply, SubAgentManager, SubAgentRoute,
};
use serde_json::Value;

fn api_tool(id: &str, key: &str) -> ToolConfig {
    ToolConfig {
        id: id.into(),
        name: format!("{} name", id),
        icon: String::new(),
        tool_type: "api".into(),
        enabled: true,
        provider: String::new(),
        api_base: "https://api.example.com".into(),
        model_name: "m1".into(),
        api_key: key.into(),
        command: String::new(),
        args: vec![],
        system_prompt: String::new(),
    }
}

#[test]
fn created_session_is_running_and_found() {
    let mut m = SubAgentManager::new();
    let id = m.create_at(1700000000, "parent-session", "tool1", "summarize");
    assert_eq!(id, "sub_1700000000_pare");
    let s = m.get_result(&id).unwrap();
    assert_eq!(s.parent_id, "parent-session");
    assert_eq!(s.tool_id, "tool1");
    assert_eq!(s.task, "summarize");
    assert_eq!(s.status, "running");
    assert_eq!(s.result, "");
    assert_eq!(s.created_at, "1700000000");
    assert_eq!(s.completed_at, "");
}

#[test]
fn short_parent_ids_are_used_whole() {
    let mut m = SubAgentManager::new();
    assert_eq!(m.create_at(5, "ab", "t", "x"), "sub_5_ab");
}

#[test]
fn complete_records_result_status_and_time() {
    let mut m = SubAgentManager::new();
    let id = m.create_at(10, "p1", "t", "task");
    m.complete_with_time(&id, "all done", "done", "20".to_string());
    let s = m.get_result(&id).unwrap();
    assert_eq!(s.result, "all done");
    assert_eq!(s.status, "done");
    assert_eq!(s.completed_at, "20");
    assert_eq!(s.created_at, "10");
}

#[test]
fn completing_an_unknown_id_changes_nothing() {
    let mut m = SubAgentManager::new();
    let id = m.create_at(10, "p1", "t", "task");
    m.complete("nope", "r", "done");
    assert_eq!(m.get_result(&id).unwrap().status, "running");
    assert!(m.get_result("nope").is_none());
}

#[test]
fn creations_in_one_second_get_their_own_ids() {
    let mut m = SubAgentManager::new();
    let a = m.create_at(7, "pppp-1", "a", "first");
    let b = m.create_at(7, "pppp-2", "b", "second");
    let c = m.create_at(7, "pppp", "c", "third");
    assert_eq!(a, "sub_7_pppp");
    assert_eq!(b, "sub_7_pppp_");
    assert_eq!(c, "sub_7_pppp__");
    assert_eq!(m.get_result(&a).unwrap().task, "first");
    assert_eq!(m.get_result(&b).unwrap().task, "second");
    assert_eq!(m.get_result(&c).unwrap().task, "third");
    let all = m.list_by_parent("pppp");
    assert_eq!(all.len(), 1);
    assert_eq!(all[0].task, "third");
}

#[test]
fn list_by_parent_keeps_only_that_parent_in_order() {
    let mut m = SubAgentManager::new();
    m.create_at(1, "aaaa", "t", "one");
    m.create_at(2, "bbbb", "t", "two");
    m.create_at(3, "aaaa", "t", "three");
    let l = m.list_by_parent("aaaa");
    let tasks: Vec<&str> = l.iter().map(|s| s.task.as_str()).collect();
    assert_eq!(tasks, vec!["one", "three"]);
    assert!(m.list_by_parent("zzzz").is_empty());
}

#[test]
fn two_creations_with_the_clock_are_both_found() {
    let mut m = SubAgentManager::new();
    let a = m.create("parent", "t", "one");
    let b = m.create("parent", "t", "two");
    assert_ne!(a, b);
    assert_eq!(m.get_result(&a).unwrap().task, "one");
    assert_eq!(m.get_result(&b).unwrap().task, "two");
}

#[test]
fn create_with_the_clock_gives_a_findable_session() {
    let mut m = SubAgentManager::new();
    let id = m.create("parent", "t", "task");
    assert!(id.starts_with("sub_"));
    assert!(id.contains("_pare"));
    assert_eq!(m.get_result(&id).unwrap().task, "task");
}

#[test]
fn route_refuses_unknown_tools() {
    let tools = vec![api_tool("a", "k")];
    match subagent_route(&tools, "b", "task") {
        SubAgentRoute::Refused(m) => assert_eq!(m, "Tool not found"),
        other => panic!("unexpected {:?}", other),
    }
}

#[test]
fn route_refuses_non_api_or_keyless_tools() {
    let mut p = api_tool("p", "k");
    p.tool_type = "process".into();
    let tools = vec![p, api_tool("nokey", "")];
    for id in ["p", "nokey"] {
        match subagent_route(&tools, id, "task") {
            SubAgentRoute::Refused(m) => assert_eq!(m, "Only API tools are supported for sub-agents"),
            other => panic!("unexpected {:?}", other),
        }
    }
}

#[test]
fn route_calls_the_first_matching_api_tool() {
    let mut second = api_tool("a", "other");
    second.model_name = "m2".into();
    let tools = vec![api_tool("a", "secret"), second];
    match subagent_route(&tools, "a", "Write a haiku") {
        SubAgentRoute::Call { url, authorization, model, system_prompt, task } => {
            assert_eq!(url, "https://api.example.com/v1/chat/completions");
            assert_eq!(authorization, "Bearer secret");
            assert_eq!(model, "m1");
            assert_eq!(
                system_prompt,
                format!("{}{}{}", "You are a focused sub-agent. Complete this ", "task concisely:\n\n", "Write a haiku")
            );
            assert_eq!(task, "Write a haiku");
        }
        other => panic!("unexpected {:?}", other),
    }
}

#[test]
fn outcomes_of_replies() {
    let body: Value = serde_json::from_str(r#"{"choices":[{"message":{"content":"42"}}]}"#).unwrap();
    assert_eq!(subagent_outcome(&ApiReply::Body(body)), ("42".to_string(), "done".to_string()));
    let empty: Value = serde_json::from_str(r#"{"choices":[]}"#).unwrap();
    assert_eq!(subagent_outcome(&ApiReply::Body(empty)), ("(no response)".to_string(), "done".to_string()));
    assert_eq!(
        subagent_outcome(&ApiReply::Unreadable),
        ("Failed to parse API response".to_string(), "error".to_string())
    );
    assert_eq!(
        subagent_outcome(&ApiReply::Failed("timeout".into())),
        ("API error: timeout".to_string(), "error".to_string())
    );
}

#[test]
fn finish_subagent_completes_the_session() {
    let mut m = SubAgentManager::new();
    let id = m.create_at(1, "p", "t", "x");
    finish_subagent(&mut m, &id, &ApiReply::Failed("down".into()));
    let s = m.get_result(&id).unwrap();
    assert_eq!(s.result, "API error: down");
    assert_eq!(s.status, "error");
}

#[test]
fn two_creations_in_different_seconds_are_both_found() {
    let mut m = SubAgentManager::new();
    let a = m.create_at(1700000000, "parent-session", "tool1", "first");
    let b = m.create_at(1700000001, "parent-session", "tool1", "second");
    assert_ne!(a, b);
    assert_eq!(m.get_result(&a).unwrap().task, "first");
    assert_eq!(m.get_result(&b).unwrap().task, "second");
}
