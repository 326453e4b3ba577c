use ai_tools_hub::hub::{
    agent_reply, agent_should_answer, agent_system_prompt, completion_text, http_system_prompt,
    hub_bind_addresses, telegram_api_base, telegram_error, telegram_inbound, telegram_reply_chat,
    telegram_send_url, telegram_update, telegram_updates, ChatMessage, DeepSeekClient, HubConfig,
    TelegramPoller, TelegramUpdate,
};
use serde_json::Value;

fn json(text: &str) -> Value {
    serde_json::from_str(text).unwrap()
}

fn message(role: &str, source: &str, reply_to: &str) -> ChatMessage {
    ChatMessage {
        id: "m".into(),
        role: role.into(),
        content: "hello".into(),
        source: source.into(),
        reply_to: reply_to.into(),
        timestamp: "0".into(),
    }
}

fn update(id: Option<i64>, text: Option<&str>) -> TelegramUpdate {
    TelegramUpdate {
        update_id: id,
        has_message: true,
        chat_id: Some(-100123),
        text: text.map(|t| t.to_string()),
        first_name: Some("Ann".into()),
    }
}

#[test]
fn default_settings() {
    assert_eq!(HubConfig::default_vault(true, Some("/data".into())), "D:\\我的工作台");
    assert_eq!(HubConfig::default_vault(false, Some("/data".into())), "/data");
    assert_eq!(HubConfig::default_vault(false, None), ".");
    let c = HubConfig::with_vault("v".into());
    assert_eq!(c.telegram_token, "");
    assert_eq!(c.vault_path, "v");
}

#[test]
fn client_settings_and_requests() {
    let c = DeepSeekClient::from_settings(None, None, None);
    assert!(!c.is_configured());
    assert_eq!(c.api_base, "https://api.deepseek.com");
    assert_eq!(c.model, "deepseek-chat");
    let c = DeepSeekClient::from_settings(Some("k".into()), Some("https://x".into()), Some("m".into()));
    assert!(c.is_configured());
    assert_eq!(c.chat_url(), "https://x/v1/chat/completions");
    assert_eq!(c.authorization(), "Bearer k");
}

#[test]
fn agent_answers_users_only() {
    assert!(agent_should_answer(&message("user", "web", "")));
    assert!(!agent_should_answer(&message("assistant", "agent", "")));
    assert_eq!(agent_system_prompt("\nctx"), "You are a helpful AI assistant.\nctx");
    assert_eq!(http_system_prompt(""), "You are a helpful AI assistant accessible via HTTP API.");
}

#[test]
fn agent_reply_keeps_the_reply_target() {
    let r = agent_reply(&message("user", "telegram/Ann", "-100123"), "hi!".into(), Some(1700000001));
    assert_eq!(r.id, "resp_1700000001");
    assert_eq!(r.role, "assistant");
    assert_eq!(r.content, "hi!");
    assert_eq!(r.source, "agent");
    assert_eq!(r.reply_to, "-100123");
    assert_eq!(r.timestamp, "1700000001");
    let r = agent_reply(&message("user", "web", ""), "x".into(), None);
    assert_eq!(r.id, "resp_0");
    assert_eq!(r.timestamp, "");
}

#[test]
fn telegram_messages_come_in_and_answers_go_back() {
    let (next, m) = telegram_inbound(0, &update(Some(41), Some("What is Rust?")), Some(5));
    assert_eq!(next, 42);
    let m = m.unwrap();
    assert_eq!(m.id, "tg_41");
    assert_eq!(m.role, "user");
    assert_eq!(m.content, "What is Rust?");
    assert_eq!(m.source, "telegram/Ann");
    assert_eq!(m.reply_to, "-100123");
    assert_eq!(m.timestamp, "5");
    assert_eq!(telegram_reply_chat(&m), Some(-100123));
}

#[test]
fn commands_and_empty_texts_are_not_messages() {
    let (next, m) = telegram_inbound(7, &update(None, Some("/start")), None);
    assert_eq!(next, 7);
    assert!(m.is_none());
    assert!(telegram_inbound(7, &update(Some(9), Some("")), None).1.is_none());
    assert!(telegram_inbound(7, &update(Some(9), None), None).1.is_none());
    let mut u = update(Some(9), Some("hi"));
    u.has_message = false;
    assert!(telegram_inbound(7, &u, None).1.is_none());
}

#[test]
fn missing_sender_and_chat_default() {
    let u = TelegramUpdate { update_id: Some(1), has_message: true, chat_id: None, text: Some("x".into()), first_name: None };
    let m = telegram_inbound(0, &u, None).1.unwrap();
    assert_eq!(m.source, "telegram/User");
    assert_eq!(m.reply_to, "0");
}

#[test]
fn reply_targets() {
    assert_eq!(telegram_reply_chat(&message("user", "web", "5")), None);
    assert_eq!(telegram_reply_chat(&message("user", "telegram/x", "")), None);
    assert_eq!(telegram_reply_chat(&message("user", "telegram/x", "abc")), None);
    assert_eq!(telegram_reply_chat(&message("user", "telegram/x", "+12")), Some(12));
}

#[test]
fn reading_bot_api_updates() {
    let answer = json(
        r#"{"ok":true,"result":[
            {"update_id":10,"message":{"chat":{"id":55},"text":"hi","from":{"first_name":"Bo"}}},
            {"update_id":11,"edited_message":{}}
        ]}"#,
    );
    let us = telegram_updates(&answer);
    assert_eq!(us.len(), 2);
    assert_eq!(us[0].update_id, Some(10));
    assert!(us[0].has_message);
    assert_eq!(us[0].chat_id, Some(55));
    assert_eq!(us[0].text.as_deref(), Some("hi"));
    assert_eq!(us[0].first_name.as_deref(), Some("Bo"));
    assert!(!us[1].has_message);
    assert!(telegram_updates(&json(r#"{"ok":false}"#)).is_empty());
    let one = telegram_update(&json(r#"{"message":{"text":"t"}}"#));
    assert_eq!(one.update_id, None);
    assert_eq!(one.chat_id, None);
}

#[test]
fn poller_moves_past_every_update_and_keeps_messages() {
    let mut p = TelegramPoller::new("tok".into());
    assert_eq!(p.next_offset(), 0);
    assert_eq!(p.updates_url(), "https://api.telegram.org/bottok/getUpdates");
    let batch = vec![update(Some(3), Some("a")), update(Some(4), Some("/cmd")), update(Some(5), Some("b"))];
    let msgs = p.absorb(&batch, Some(1));
    assert_eq!(p.next_offset(), 6);
    let texts: Vec<&str> = msgs.iter().map(|m| m.content.as_str()).collect();
    assert_eq!(texts, vec!["a", "b"]);
    assert!(p.absorb(&vec![], None).is_empty());
    assert_eq!(p.next_offset(), 6);
    assert!(p.still_current("tok"));
    assert!(!p.still_current("other"));
}

#[test]
fn bot_api_addresses_and_errors() {
    assert_eq!(telegram_api_base("T"), "https://api.telegram.org/botT");
    let mut c = HubConfig::with_vault(".".into());
    assert_eq!(telegram_send_url(&c), Err("Telegram not configured".to_string()));
    c.telegram_token = "T".into();
    assert_eq!(telegram_send_url(&c), Ok("https://api.telegram.org/botT/sendMessage".to_string()));
    assert_eq!(telegram_error("bad"), "Telegram error: bad");
    assert_eq!(hub_bind_addresses(), vec!["0.0.0.0:27125", "0.0.0.0:27126", "0.0.0.0:27127", "0.0.0.0:0"]);
}

#[test]
fn completion_reply_text() {
    assert_eq!(completion_text(&json(r#"{"choices":[{"message":{"content":"yo"}}]}"#)), "yo");
    assert_eq!(completion_text(&json(r#"{"error":"x"}"#)), "(no response)");
}
