use ai_tools_hub::cli::{cli_action, cli_request, CliAction};
use ai_tools_hub::context::{ContextBuffer, CONTEXT_CAPACITY};
use ai_tools_hub::learning::{find_api_tool, learn_prompt, learned_bundle, learned_fields, learned_skill};
use ai_tools_hub::memory::{like_pattern, memory_search_results, tool_filter, Memory, SessionSummary};
use ai_tools_hub::models::{clone_strings, ChatMsg, Session, ToolConfig};
use ai_tools_hub::personality::default_personalities;
use ai_tools_hub::pty::{clean_output, OutputWatch};
use ai_tools_hub::sessions::{conversation, recent_sessions, session_summary};
use ai_tools_hub::skill_bundle::{
    fmt_id, install_plan, installed_from_bundles, same_bundle, uninstall_outcome, InstalledSkill,
    SkillBundle, SkillItem,
};
use serde_json::Value;

fn msg(role: &str, content: &str) -> ChatMsg {
    ChatMsg { role: role.into(), content: content.into(), toolId: None }
}

fn session(id: &str, updated: &str) -> Session {
    Session {
        id: id.into(),
        tool_id: "t".into(),
        title: String::new(),
        messages: vec![msg("user", id)],
        created: "0".into(),
        updated: updated.into(),
    }
}

fn item(name: &str) -> SkillItem {
    SkillItem { name: name.into(), description: "d".into(), prompt: "p".into(), tools: None, steps: None }
}

fn bundle(name: &str, skills: Vec<SkillItem>) -> SkillBundle {
    SkillBundle { name: name.into(), version: "2.0".into(), description: String::new(), author: None, skills }
}

#[test]
fn terminal_lines() {
    assert!(matches!(cli_action("   "), CliAction::Skip));
    assert!(matches!(cli_action(" /quit "), CliAction::Quit));
    assert!(matches!(cli_action("/exit"), CliAction::Quit));
    match cli_action("/help") {
        CliAction::Unknown(c) => assert_eq!(c, "/help"),
        other => panic!("unexpected {:?}", other),
    }
    match cli_action("  hello there \n") {
        CliAction::Chat(m) => assert_eq!(m, "hello there"),
        other => panic!("unexpected {:?}", other),
    }
}

#[test]
fn context_stack_keeps_the_newest_twenty() {
    let mut b = ContextBuffer::new();
    for i in 0..25 {
        b.push(format!("c{}", i));
    }
    let items = b.peek();
    assert_eq!(items.len(), CONTEXT_CAPACITY);
    assert_eq!(items[0], "c5");
    assert_eq!(b.pop(), Some("c24".to_string()));
    assert_eq!(b.peek().len(), 19);
    b.clear();
    assert_eq!(b.pop(), None);
}

#[test]
fn conversation_text_and_summary() {
    let msgs = vec![msg("user", "Hi"), msg("assistant", "Hello!")];
    assert_eq!(conversation(&msgs), "user: Hi\nassistant: Hello!");
    let mut s = session("s", "1");
    s.messages = vec![msg("user", &"a".repeat(400))];
    let (title, summary) = session_summary(&s);
    assert_eq!(summary.chars().count(), 300);
    assert!(summary.starts_with("user: aaa"));
    assert_eq!(title.chars().count(), 80);
    assert!(summary.starts_with(&title));
    s.messages = vec![msg("user", "short")];
    assert_eq!(session_summary(&s), ("user: short".to_string(), "user: short".to_string()));
}

#[test]
fn session_list_is_newest_first_and_capped() {
    let ss: Vec<Session> = (0..60).map(|i| session(&format!("s{}", i), &format!("{:03}", i % 7))).collect();
    let r = recent_sessions(&ss);
    assert_eq!(r.len(), 50);
    assert_eq!(r[0].updated, "006");
    assert_eq!(r[0].id, "s6");
    assert_eq!(r[1].id, "s13");
    for w in r.windows(2) {
        assert!(w[0].updated >= w[1].updated);
    }
    let few = recent_sessions(&vec![session("a", "1"), session("b", "2")]);
    let ids: Vec<&str> = few.iter().map(|s| s.id.as_str()).collect();
    assert_eq!(ids, vec!["b", "a"]);
}

#[test]
fn memory_hits() {
    assert_eq!(like_pattern("rust"), "%rust%");
    assert_eq!(tool_filter(Some(String::new())), None);
    assert_eq!(tool_filter(Some("t".into())), Some("t".to_string()));
    assert_eq!(tool_filter(None), None);
    let m = Memory {
        id: 1,
        tool_id: "t1".into(),
        session_id: None,
        memory_type: "fact".into(),
        content: "likes tea".into(),
        keywords: String::new(),
        entities: String::new(),
        created_at: "2024".into(),
    };
    let s = SessionSummary {
        session_id: "s".into(),
        tool_id: "t2".into(),
        title: "Trip".into(),
        summary: "user: plan".into(),
        created_at: "1".into(),
        updated_at: "2".into(),
    };
    let r = memory_search_results(vec![m], vec![s]);
    assert_eq!(r.len(), 2);
    assert_eq!((r[0].content.as_str(), r[0].source.as_str(), r[0].timestamp.as_str()), ("likes tea", "t1", "2024"));
    assert_eq!((r[1].content.as_str(), r[1].source.as_str(), r[1].timestamp.as_str()), ("[Conv] Trip: user: plan", "t2", "2"));
}

#[test]
fn learning_a_skill() {
    let p = learn_prompt(&vec![msg("user", "how do I x"), msg("assistant", "do y")]);
    assert_eq!(
        p,
        "Extract a reusable skill as JSON (name,description,prompt).\nConversation:\nuser: how do I x\nassistant: do y\nJSON:"
    );
    let long = learn_prompt(&vec![msg("u", &"z".repeat(5000))]);
    assert!(long.contains(&format!("u: {}\nJSON:", "z".repeat(2997))));

    let reply: Value = serde_json::from_str(
        r#"{"choices":[{"message":{"content":"{\"name\":\"Deploy\",\"description\":\"Ship it\",\"prompt\":\"Run deploy\"}"}}]}"#,
    )
    .unwrap();
    let (n, d, pr) = learned_fields(&reply);
    assert_eq!((n.as_str(), d.as_str(), pr.as_str()), ("Deploy", "Ship it", "Run deploy"));
    let junk: Value = serde_json::from_str(r#"{"choices":[{"message":{"content":"not json"}}]}"#).unwrap();
    assert_eq!(learned_fields(&junk), ("Learned".to_string(), "extracted".to_string(), String::new()));

    let b = learned_bundle("Deploy", "Ship it", "Run deploy");
    assert_eq!(b.name, "Learned: Deploy");
    assert_eq!(b.version, "1.0.0");
    assert_eq!(b.author.as_deref(), Some("AI Hub"));
    assert_eq!(b.skills.len(), 1);
    let (file, installed) = install_plan(&b).unwrap();
    assert_eq!(file, "learned:_deploy-v1.0.0.json");
    let s = learned_skill(installed, "Deploy", "Ship it", "Run deploy");
    assert_eq!(s.id, "learned:_deploy_deploy");
    let f = learned_skill(vec![], "N", "D", "P");
    assert_eq!((f.id.as_str(), f.bundle_name.as_str(), f.version.as_str()), ("l", "A", "1.0.0"));
}

#[test]
fn learning_needs_an_api_tool() {
    let mut t = ToolConfig::process_tool("p".into(), "P".into(), "i".into(), "cmd".into(), vec![]);
    assert_eq!(find_api_tool(&vec![t.clone()]), Err("no API tool".to_string()));
    t.tool_type = "api".into();
    let other = ToolConfig::process_tool("q".into(), "Q".into(), "i".into(), "cmd".into(), vec![]);
    assert_eq!(find_api_tool(&vec![other, t]), Ok(1));
}

#[test]
fn saved_terminal_tools() {
    let t = ToolConfig::process_tool("tool_1".into(), "Py".into(), "🐍".into(), "python".into(), vec!["-q".into()]);
    assert_eq!(t.tool_type, "process");
    assert!(t.enabled);
    assert_eq!(t.api_key, "");
    assert_eq!(t.args, vec!["-q".to_string()]);
    assert_eq!(clone_strings(&t.args), t.args);
}

#[test]
fn skill_bundles() {
    assert_eq!(fmt_id("My Bundle", "Do Thing"), "my_bundle_do_thing");
    let b = bundle("Writing Kit", vec![item("Outline"), item("Edit")]);
    let (file, skills) = install_plan(&b).unwrap();
    assert_eq!(file, "writing_kit-v2.0.json");
    let ids: Vec<&str> = skills.iter().map(|s| s.id.as_str()).collect();
    assert_eq!(ids, vec!["writing_kit_outline", "writing_kit_edit"]);
    assert!(skills.iter().all(|s: &InstalledSkill| s.enabled && s.version == "2.0"));
    assert_eq!(install_plan(&bundle("Empty", vec![])).unwrap_err(), "Bundle has no skills");
    let all = installed_from_bundles(&vec![b, bundle("B2", vec![item("x")])]);
    assert_eq!(all.len(), 3);
    assert_eq!(all[2].bundle_name, "B2");
    assert!(same_bundle(&bundle("A", vec![]), "A"));
    assert!(!same_bundle(&bundle("A", vec![]), "a"));
    assert_eq!(uninstall_outcome(true, "A"), Ok(()));
    assert_eq!(uninstall_outcome(false, "A"), Err("Bundle 'A' not found".to_string()));
}

#[test]
fn personalities() {
    let p = default_personalities();
    assert_eq!(p.len(), 6);
    let ids: Vec<&str> = p.iter().map(|t| t.id.as_str()).collect();
    assert_eq!(ids, vec!["friendly", "professional", "creative", "efficient", "analyst", "teacher"]);
    assert_eq!(p[4].tone, "professional");
    assert_eq!(p[5].tone, "friendly");
    assert_eq!(p[0].name, "温柔助手");
}

#[test]
fn terminal_tool_output() {
    let out = "hello\n$ prompt\nanswer line\n> more\n\nPS C:\\>\n  final  \n";
    assert_eq!(clean_output(out, "hello"), "answer line\n  final");
    assert_eq!(clean_output("", "x"), "");
}

#[test]
fn waiting_for_terminal_output() {
    let mut w = OutputWatch::new();
    assert!(!w.observe(0, 0));
    assert!(!w.observe(10, 100));
    for _ in 0..5 {
        assert!(!w.observe(10, 200));
    }
    assert!(w.observe(10, 300));
    let mut w2 = OutputWatch::new();
    assert!(w2.observe(0, 15001));
    let mut w3 = OutputWatch::new();
    for _ in 0..10 {
        assert!(!w3.observe(0, 10));
    }
}

#[test]
fn terminal_requests() {
    let key = || Some("sk-1".to_string());
    assert_eq!(cli_request(None, None, "hello"), None);
    assert_eq!(cli_request(Some(String::new()), None, "hello"), None);
    assert_eq!(cli_request(key(), None, "/help"), None);
    assert_eq!(cli_request(key(), None, "/quit"), None);
    assert_eq!(cli_request(key(), None, "   "), None);
    assert_eq!(
        cli_request(key(), None, "  hello there \n"),
        Some(("https://api.deepseek.com/v1/chat/completions".to_string(), "hello there".to_string()))
    );
    assert_eq!(
        cli_request(key(), Some("http://localhost:8080".into()), "hi"),
        Some(("http://localhost:8080/v1/chat/completions".to_string(), "hi".to_string()))
    );
}

#[test]
fn reinstalled_bundle_lists_only_its_new_skills() {
    let other = bundle("Other", vec![item("Keep")]);
    let fresh = bundle("Kit", vec![item("New One"), item("Two")]);
    let all = installed_from_bundles(&vec![other, fresh]);
    let ids: Vec<&str> = all.iter().map(|s| s.id.as_str()).collect();
    assert_eq!(ids, vec!["other_keep", "kit_new_one", "kit_two"]);
    assert!(all[1..].iter().all(|s| s.bundle_name == "Kit"));
}

#[test]
fn installed_skills_are_listed_whatever_the_bundle_order() {
    let fresh = bundle("Kit", vec![item("New One"), item("Two")]);
    let (_, planned) = install_plan(&fresh).unwrap();
    let all = installed_from_bundles(&vec![fresh, bundle("Other", vec![item("Keep")])]);
    let kit: Vec<&InstalledSkill> = all.iter().filter(|s| s.bundle_name == "Kit").collect();
    assert_eq!(kit.len(), planned.len());
    for (a, b) in kit.iter().zip(planned.iter()) {
        assert_eq!(a.id, b.id);
        assert_eq!(a.name, b.name);
        assert_eq!(a.version, b.version);
        assert_eq!(a.prompt, b.prompt);
    }
    assert_eq!(all[2].bundle_name, "Other");
}
