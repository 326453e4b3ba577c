use ai_tools_hub::browser::{
    browser_unavailable, cdp_reply, cdp_timeout, evaluated_text, session_id, target_id,
    version_url, websocket_url, CdpReply,
};
use ai_tools_hub::search::{
    backend_answer, ddg_answer, ddg_summary, framed_result, google_results, google_search_url,
    page_text, urlencode, CdpIds, SearchBackend, SearchFallback, SearchTier, WebSearch,
};
use serde_json::Value;

fn json(text: &str) -> Value {
    serde_json::from_str(text).unwrap()
}

#[test]
fn queries_are_encoded() {
    assert_eq!(urlencode("rust lang"), "rust+lang");
    assert_eq!(urlencode("a-b_c.d~"), "a-b_c.d~");
    assert_eq!(urlencode("a&b=c"), "a%26b%3Dc");
    assert_eq!(google_search_url("hi there"), "https://www.google.com/search?q=hi+there");
}

#[test]
fn duckduckgo_answers() {
    assert_eq!(ddg_summary(Some("Abstract".into()), &vec![Some("T1".into()), None]), "- Abstract\n- T1");
    assert_eq!(ddg_summary(Some(String::new()), &vec![]), "");
    let topics: Vec<Option<String>> = (0..7).map(|i| Some(format!("t{}", i))).collect();
    assert_eq!(ddg_summary(None, &topics), "- t0\n- t1\n- t2\n- t3\n- t4");
    let data = json(
        r#"{"AbstractText":"Rust is a language","RelatedTopics":[{"Text":"A"},{"Name":"group"},{"Text":"B"}]}"#,
    );
    assert_eq!(ddg_answer(&data), "- Rust is a language\n- A\n- B");
    assert_eq!(ddg_answer(&json("{}")), "");
}

#[test]
fn google_headings() {
    // Only the pieces between `<` that hold no `>` are kept, so a closed
    // heading tag leaves nothing of its text.
    let html = "<div>\n<h3 class=\"r\">First result title here</h3>\n<p>x</p>\n";
    assert_eq!(google_results(html), "");
    let odd = "x <h3 heading text without a close\n<h3 short\n";
    assert_eq!(google_results(odd), "- x  h3 heading text without a close");
}

#[test]
fn browser_page_text() {
    assert_eq!(page_text(""), Err("No content from page".to_string()));
    let text = "short\n  This line is long enough to keep  \nAccept Cookie settings for this site\n";
    assert_eq!(page_text(text), Ok("This line is long enough to keep".to_string()));
    let long = format!("{}\n", "y".repeat(3500));
    let r = page_text(&long).unwrap();
    assert_eq!(r, format!("{}...[truncated]", "y".repeat(3000)));
}

#[test]
fn backends_and_frames() {
    assert_eq!(backend_answer(Ok("x".into())), Some("x".to_string()));
    assert_eq!(backend_answer(Ok(String::new())), None);
    assert_eq!(backend_answer(Err("e".into())), None);
    assert_eq!(framed_result("Search", "body"), "[Search]\n---\nbody\n---");
}

#[test]
fn protocol_ids_count_up() {
    let mut ids = CdpIds::new();
    assert_eq!(ids.next_id(), 1);
    assert_eq!(ids.next_id(), 2);
    assert_eq!(ids.next_id(), 3);
}

#[test]
fn browser_endpoints_and_replies() {
    assert_eq!(version_url(9222), "http://localhost:9222/json/version");
    assert_eq!(
        browser_unavailable(9222, "refused"),
        "Chrome not available (start Chrome with --remote-debugging-port=9222): refused"
    );
    assert_eq!(websocket_url(&json(r#"{"webSocketDebuggerUrl":"ws://x"}"#)), Ok("ws://x".to_string()));
    assert_eq!(
        websocket_url(&json("{}")),
        Err("Chrome not running with --remote-debugging-port".to_string())
    );
    assert_eq!(target_id(&json(r#"{"targetId":"T1"}"#)), Ok("T1".to_string()));
    assert_eq!(target_id(&json("{}")), Err("no targetId".to_string()));
    assert_eq!(session_id(&json(r#"{"sessionId":"S"}"#)), Ok("S".to_string()));
    assert_eq!(session_id(&json("{}")), Err("no sessionId".to_string()));
    assert_eq!(evaluated_text(&json(r#"{"result":{"value":"page"}}"#)), "page");
    assert_eq!(evaluated_text(&json(r#"{"result":{}}"#)), "");
    assert_eq!(cdp_timeout(7), "CDP timeout (id=7)");
}

#[test]
fn protocol_replies_are_matched_by_id() {
    match cdp_reply(&json(r#"{"id":3,"result":{"a":1}}"#), 3) {
        CdpReply::Done(v) => assert_eq!(v["a"], 1),
        other => panic!("unexpected {:?}", other),
    }
    assert!(matches!(cdp_reply(&json(r#"{"id":4,"result":{}}"#), 3), CdpReply::Other));
    assert!(matches!(cdp_reply(&json(r#"{"method":"Page.loadEventFired"}"#), 3), CdpReply::Other));
    match cdp_reply(&json(r#"{"id":3,"error":{"code":-1}}"#), 3) {
        CdpReply::Failed(m) => assert!(m.starts_with("CDP error: Object")),
        other => panic!("unexpected {:?}", other),
    }
}

#[test]
fn search_tries_duckduckgo_then_google() {
    let mut s = SearchFallback::new();
    assert_eq!(s.next_backend(), Some(SearchBackend::DuckDuckGo));
    s.record(Err("timeout".into()));
    assert_eq!(s.next_backend(), Some(SearchBackend::Google));
    s.record(Ok(String::new()));
    assert_eq!(s.next_backend(), None);
    assert_eq!(s.outcome(), Err("All search backends failed".to_string()));
}

#[test]
fn search_stops_at_the_first_answer() {
    let mut s = SearchFallback::new();
    s.record(Ok("- Rust".into()));
    assert_eq!(s.next_backend(), None);
    assert_eq!(s.outcome(), Ok("- Rust".to_string()));
}

#[test]
fn web_search_answers_from_the_browser_first() {
    let mut w = WebSearch::new();
    assert_eq!(w.next_tier(), Some(SearchTier::Browser));
    w.record(Ok("page".into()));
    assert_eq!(w.next_tier(), None);
    let (tier, text) = w.outcome().unwrap();
    assert_eq!(tier, SearchTier::Browser);
    assert_eq!(text, "page");
    assert_eq!(framed_result(&tier.label(), &text), "[Browser]\n---\npage\n---");
}

#[test]
fn web_search_falls_back_when_the_browser_fails() {
    let mut w = WebSearch::new();
    w.record(Err("Chrome not available".into()));
    assert_eq!(w.next_tier(), Some(SearchTier::Backends));
    w.record(Ok("- Rust".into()));
    assert_eq!(w.next_tier(), None);
    let (tier, text) = w.outcome().unwrap();
    assert_eq!(tier, SearchTier::Backends);
    assert_eq!(text, "- Rust");
    assert_eq!(tier.label(), "Search");

    let mut w = WebSearch::new();
    w.record(Err("Chrome not available".into()));
    w.record(Err("All search backends failed".into()));
    assert_eq!(w.outcome(), Err("All search backends failed".to_string()));
}
