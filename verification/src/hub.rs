//! The hub service: chat messages passed between the HTTP API, the Telegram
//! bridge and the agent worker, the hub configuration, and the client of the
//! chat-completion API the agent uses.
use vstd::prelude::*;
use crate::chat::{bearer, completions_url};
use crate::json::{
    json_array_item, json_array_len, json_field, json_field_is_object, json_i64_field,
    json_reply_content, json_str_field, spec_json_array_item, spec_json_array_len, spec_json_field,
    spec_json_i64_field, spec_json_is_object, spec_json_str_field, spec_reply_content,
};
use crate::text::{
    all_digits, chars_of, decimal, digits_value, is_digit, owned, parse_i64, parse_i64_spec,
    push_decimal, push_signed_decimal, push_str, seq_starts_with, signed_decimal,
    str_starts_with, str_eq, string_from_chars, unsigned_part,
};

verus! {

/// A message on the hub's channel.
#[derive(Debug)]
pub struct ChatMessage {
    pub id: String,
    pub role: String,
    pub content: String,
    pub source: String,
    pub reply_to: String,
    pub timestamp: String,
}

/// The query of an HTTP chat request.
#[derive(Debug)]
pub struct ChatQuery {
    pub q: String,
    pub tool_id: Option<String>,
}

/// The hub's settings.
#[derive(Debug)]
pub struct HubConfig {
    pub telegram_token: String,
    pub vault_path: String,
}

impl Clone for HubConfig {
    fn clone(&self) -> (r: Self)
        ensures
            r == *self,
    {
        HubConfig { telegram_token: self.telegram_token.clone(), vault_path: self.vault_path.clone() }
    }
}

impl HubConfig {
    /// The default vault: `D:\我的工作台` on Windows; elsewhere the data
    /// directory, or `.` when there is none.
    pub fn default_vault(is_windows: bool, data_dir: Option<String>) -> (r: String)
        ensures
            is_windows ==> r@ == "D:\\我的工作台"@,
            !is_windows ==> match data_dir {
                Some(d) => r == d,
                None => r@ == "."@,
            },
    {
        if is_windows {
            owned("D:\\我的工作台")
        } else {
            match data_dir {
                Some(d) => d,
                None => owned("."),
            }
        }
    }

    /// The default settings: no Telegram token and the given default vault.
    pub fn with_vault(vault_path: String) -> (r: Self)
        ensures
            r.telegram_token@ == Seq::<char>::empty(),
            r.vault_path == vault_path,
    {
        HubConfig { telegram_token: String::new(), vault_path }
    }
}

/// The client of the chat-completion API used by the hub.
#[derive(Debug)]
pub struct DeepSeekClient {
    pub api_key: String,
    pub api_base: String,
    pub model: String,
}

impl DeepSeekClient {
    /// A client from the settings found in the environment: no key by
    /// default, `https://api.deepseek.com` and `deepseek-chat` by default.
    pub fn from_settings(api_key: Option<String>, api_base: Option<String>, model: Option<String>) -> (r: Self)
        ensures
            r.api_key@ == match api_key { Some(k) => k@, None => Seq::<char>::empty() },
            r.api_base@ == match api_base { Some(b) => b@, None => "https://api.deepseek.com"@ },
            r.model@ == match model { Some(m) => m@, None => "deepseek-chat"@ },
    {
        DeepSeekClient {
            api_key: match api_key { Some(k) => k, None => String::new() },
            api_base: match api_base { Some(b) => b, None => owned("https://api.deepseek.com") },
            model: match model { Some(m) => m, None => owned("deepseek-chat") },
        }
    }

    /// Whether an API key is set.
    pub fn is_configured(&self) -> (r: bool)
        ensures
            r == (self.api_key@.len() > 0),
    {
        !self.api_key.as_str().is_empty()
    }

    /// The endpoint of chat completions.
    pub fn chat_url(&self) -> (r: String)
        ensures
            r@ == self.api_base@ + "/v1/chat/completions"@,
    {
        completions_url(self.api_base.as_str())
    }

    /// The `Authorization` header value.
    pub fn authorization(&self) -> (r: String)
        ensures
            r@ == "Bearer "@ + self.api_key@,
    {
        bearer(self.api_key.as_str())
    }
}

/// The agent answers user messages only.
pub fn agent_should_answer(msg: &ChatMessage) -> (r: bool)
    ensures
        r == (msg.role@ == "user"@),
{
    str_eq(msg.role.as_str(), "user")
}

/// The system prompt of the agent worker, with knowledge context appended.
pub fn agent_system_prompt(context: &str) -> (r: String)
    ensures
        r@ == "You are a helpful AI assistant."@ + context@,
{
    let mut m: Vec<char> = Vec::new();
    push_str(&mut m, "You are a helpful AI assistant.");
    push_str(&mut m, context);
    string_from_chars(m.as_slice())
}

/// The system prompt of the HTTP chat endpoint, with knowledge context appended.
pub fn http_system_prompt(context: &str) -> (r: String)
    ensures
        r@ == "You are a helpful AI assistant accessible via HTTP API."@ + context@,
{
    let mut m: Vec<char> = Vec::new();
    push_str(&mut m, "You are a helpful AI assistant accessible via HTTP API.");
    push_str(&mut m, context);
    string_from_chars(m.as_slice())
}

/// The time stamp text of a clock reading (empty before the epoch).
pub open spec fn stamp(now: Option<u64>) -> Seq<char> {
    match now {
        Some(n) => decimal(n as nat),
        None => Seq::<char>::empty(),
    }
}

/// The agent's answer to `msg`, made at clock reading `now`.
pub fn agent_reply(msg: &ChatMessage, response: String, now: Option<u64>) -> (r: ChatMessage)
    ensures
        r.id@ == "resp_"@ + decimal(match now { Some(n) => n as nat, None => 0nat }),
        r.role@ == "assistant"@,
        r.content == response,
        r.source@ == "agent"@,
        r.reply_to == msg.reply_to,
        r.timestamp@ == stamp(now),
{
    let secs = match now { Some(n) => n, None => 0 };
    let mut id: Vec<char> = Vec::new();
    push_str(&mut id, "resp_");
    push_decimal(secs, &mut id);
    let mut ts: Vec<char> = Vec::new();
    match now {
        Some(n) => push_decimal(n, &mut ts),
        None => {},
    }
    assert(ts@ =~= stamp(now));
    ChatMessage {
        id: string_from_chars(id.as_slice()),
        role: owned("assistant"),
        content: response,
        source: owned("agent"),
        reply_to: msg.reply_to.clone(),
        timestamp: string_from_chars(ts.as_slice()),
    }
}

/// The Telegram chat an answer to `msg` is sent to: messages from Telegram
/// with a chat id that reads as an `i64`.
pub open spec fn telegram_target(msg: ChatMessage) -> Option<i64> {
    if seq_starts_with(msg.source@, "telegram/"@) && msg.reply_to@.len() > 0 {
        parse_i64_spec(msg.reply_to@)
    } else {
        None
    }
}

/// Where the answer to `msg` goes on Telegram, if anywhere.
pub fn telegram_reply_chat(msg: &ChatMessage) -> (r: Option<i64>)
    ensures
        r == telegram_target(*msg),
{
    if str_starts_with(msg.source.as_str(), "telegram/") && !msg.reply_to.as_str().is_empty() {
        let rc = chars_of(msg.reply_to.as_str());
        parse_i64(rc.as_slice())
    } else {
        None
    }
}

/// What the Telegram bridge reads from one update.
#[derive(Debug)]
pub struct TelegramUpdate {
    pub update_id: Option<i64>,
    pub has_message: bool,
    pub chat_id: Option<i64>,
    pub text: Option<String>,
    pub first_name: Option<String>,
}

/// `t` holds what the bridge reads from the update `u`.
pub open spec fn read_update(u: serde_json::Value, t: TelegramUpdate) -> bool {
    let msg = spec_json_field(u, "message"@);
    &&& t.update_id == spec_json_i64_field(u, "update_id"@)
    &&& t.has_message == spec_json_is_object(u, "message"@)
    &&& t.chat_id == spec_json_i64_field(spec_json_field(msg, "chat"@), "id"@)
    &&& crate::tool_layer::opt_view(t.text) == spec_json_str_field(msg, "text"@)
    &&& crate::tool_layer::opt_view(t.first_name) == spec_json_str_field(spec_json_field(msg, "from"@), "first_name"@)
}

/// Reads one update of the Bot API: its id, whether it holds a message, and
/// the message's chat id, text and sender's first name.
pub fn telegram_update(u: &serde_json::Value) -> (t: TelegramUpdate)
    ensures
        read_update(*u, t),
{
    let msg = json_field(u, "message");
    let chat = json_field(&msg, "chat");
    let from = json_field(&msg, "from");
    TelegramUpdate {
        update_id: json_i64_field(u, "update_id"),
        has_message: json_field_is_object(u, "message"),
        chat_id: json_i64_field(&chat, "id"),
        text: json_str_field(&msg, "text"),
        first_name: json_str_field(&from, "first_name"),
    }
}

/// Reads the updates of a `getUpdates` answer, in order (none when it holds
/// no `result` array).
pub fn telegram_updates(answer: &serde_json::Value) -> (r: Vec<TelegramUpdate>)
    ensures
        r@.len() == match spec_json_array_len(*answer, "result"@) {
            Some(n) => n as int,
            None => 0,
        },
        forall|i: int| 0 <= i < r@.len() ==> read_update(spec_json_array_item(*answer, "result"@, i as usize), #[trigger] r@[i]),
{
    let mut out: Vec<TelegramUpdate> = Vec::new();
    match json_array_len(answer, "result") {
        Some(n) => {
            let mut i: usize = 0;
            while i < n
                invariant
                    i <= n,
                    out@.len() == i,
                    forall|k: int| 0 <= k < i ==> read_update(spec_json_array_item(*answer, "result"@, k as usize), #[trigger] out@[k]),
                decreases n - i,
            {
                let item = json_array_item(answer, "result", i);
                out.push(telegram_update(&item));
                i = i + 1;
            }
        },
        None => {},
    }
    out
}

/// The text of a chat-completion reply, if it has one.
pub fn reply_content(reply: &serde_json::Value) -> (r: Option<String>)
    ensures
        crate::tool_layer::opt_view(r) == spec_reply_content(*reply),
{
    json_reply_content(reply)
}

/// The text of a chat-completion reply, or `(no response)`.
pub fn completion_text(reply: &serde_json::Value) -> (r: String)
    ensures
        r@ == match spec_reply_content(*reply) {
            Some(c) => c,
            None => "(no response)"@,
        },
{
    match json_reply_content(reply) {
        Some(c) => c,
        None => owned("(no response)"),
    }
}

/// The refusal of a Telegram send the Bot API did not accept.
pub fn telegram_error(body: &str) -> (r: String)
    ensures
        r@ == "Telegram error: "@ + body@,
{
    let mut m: Vec<char> = Vec::new();
    push_str(&mut m, "Telegram error: ");
    push_str(&mut m, body);
    string_from_chars(m.as_slice())
}

/// The addresses the hub's HTTP server tries to listen on, in order; the
/// last lets the system pick a port.
pub fn hub_bind_addresses() -> (r: Vec<String>)
    ensures
        r@.len() == 4,
        r@[0]@ == "0.0.0.0:27125"@,
        r@[1]@ == "0.0.0.0:27126"@,
        r@[2]@ == "0.0.0.0:27127"@,
        r@[3]@ == "0.0.0.0:0"@,
{
    let mut v: Vec<String> = Vec::new();
    v.push(owned("0.0.0.0:27125"));
    v.push(owned("0.0.0.0:27126"));
    v.push(owned("0.0.0.0:27127"));
    v.push(owned("0.0.0.0:0"));
    v
}

/// The message text of an update (empty when absent).
pub open spec fn update_text(u: TelegramUpdate) -> Seq<char> {
    match u.text { Some(t) => t@, None => Seq::<char>::empty() }
}

/// The chat message a Telegram update brings in: a message with text that is
/// not a command (`/...`).
pub open spec fn brings_message(u: TelegramUpdate) -> bool {
    u.has_message && update_text(u).len() > 0 && !seq_starts_with(update_text(u), "/"@)
}

/// `m` is the chat message the update `u` brings in, read at clock `now`.
pub open spec fn inbound_message(u: TelegramUpdate, m: ChatMessage, now: Option<u64>) -> bool {
    &&& m.id@ == "tg_"@ + signed_decimal(match u.update_id { Some(v) => v as int, None => 0 })
    &&& m.role@ == "user"@
    &&& m.content@ == update_text(u)
    &&& m.source@ == "telegram/"@ + match u.first_name { Some(f) => f@, None => "User"@ }
    &&& m.reply_to@ == signed_decimal(match u.chat_id { Some(c) => c as int, None => 0 })
    &&& m.timestamp@ == stamp(now)
}

/// Reads one update: the next offset to poll from, and the inbound message.
pub fn telegram_inbound(offset: i64, u: &TelegramUpdate, now: Option<u64>) -> (r: (i64, Option<ChatMessage>))
    requires
        u.update_id matches Some(v) ==> v < i64::MAX,
    ensures
        r.0 == match u.update_id { Some(v) => v + 1, None => offset as int },
        brings_message(*u) ==> (r.1 matches Some(m) && inbound_message(*u, m, now)),
        !brings_message(*u) ==> r.1 is None,
{
    let next = match u.update_id { Some(v) => v + 1, None => offset };
    if !u.has_message {
        return (next, None);
    }
    let text = match &u.text { Some(t) => t.clone(), None => String::new() };
    if text.as_str().is_empty() || str_starts_with(text.as_str(), "/") {
        return (next, None);
    }
    let mut id: Vec<char> = Vec::new();
    push_str(&mut id, "tg_");
    push_signed_decimal(match u.update_id { Some(v) => v, None => 0 }, &mut id);
    let mut src: Vec<char> = Vec::new();
    push_str(&mut src, "telegram/");
    match &u.first_name {
        Some(f) => push_str(&mut src, f.as_str()),
        None => push_str(&mut src, "User"),
    }
    let mut reply: Vec<char> = Vec::new();
    push_signed_decimal(match u.chat_id { Some(c) => c, None => 0 }, &mut reply);
    let mut ts: Vec<char> = Vec::new();
    match now {
        Some(n) => push_decimal(n, &mut ts),
        None => {},
    }
    assert(ts@ =~= stamp(now));
    (next, Some(ChatMessage {
        id: string_from_chars(id.as_slice()),
        role: owned("user"),
        content: text,
        source: string_from_chars(src.as_slice()),
        reply_to: string_from_chars(reply.as_slice()),
        timestamp: string_from_chars(ts.as_slice()),
    }))
}

/// The offset to poll from after reading `us` from `offset`: one past the
/// last update id read.
pub open spec fn offset_after(offset: i64, us: Seq<TelegramUpdate>) -> i64
    decreases us.len(),
{
    if us.len() == 0 {
        offset
    } else {
        match us.last().update_id {
            Some(v) => (v + 1) as i64,
            None => offset_after(offset, us.drop_last()),
        }
    }
}

/// Every update id can be stepped past.
pub open spec fn ids_below_max(us: Seq<TelegramUpdate>) -> bool {
    forall|i: int| 0 <= i < us.len() ==> ((#[trigger] us[i]).update_id matches Some(v) ==> v < i64::MAX)
}

/// The polling of the Telegram Bot API under one token: where the next poll
/// starts.
pub struct TelegramPoller {
    token: String,
    offset: i64,
}

impl TelegramPoller {
    /// The token the poller polls with.
    pub closed spec fn token(&self) -> Seq<char> {
        self.token@
    }

    /// The offset of the next poll.
    pub closed spec fn offset(&self) -> i64 {
        self.offset
    }

    /// A poller for `token`, starting from offset 0.
    pub fn new(token: String) -> (r: Self)
        ensures
            r.token() == token@,
            r.offset() == 0,
    {
        TelegramPoller { token, offset: 0 }
    }

    /// The offset of the next poll.
    pub fn next_offset(&self) -> (r: i64)
        ensures
            r == self.offset(),
    {
        self.offset
    }

    /// Whether the configured token is still the poller's: polling under a
    /// token stops once the configuration holds another.
    pub fn still_current(&self, configured: &str) -> (r: bool)
        ensures
            r == (configured@ == self.token()),
    {
        str_eq(self.token.as_str(), configured)
    }

    /// The address of the `getUpdates` call.
    pub fn updates_url(&self) -> (r: String)
        ensures
            r@ == "https://api.telegram.org/bot"@ + self.token() + "/getUpdates"@,
    {
        let mut m: Vec<char> = Vec::new();
        push_str(&mut m, "https://api.telegram.org/bot");
        push_str(&mut m, self.token.as_str());
        push_str(&mut m, "/getUpdates");
        string_from_chars(m.as_slice())
    }

    /// Reads a batch of updates, in order, at clock `now`: the offset moves
    /// past each update read, and each update that brings a message gives
    /// one chat message, in order.
    pub fn absorb(&mut self, updates: &Vec<TelegramUpdate>, now: Option<u64>) -> (r: Vec<ChatMessage>)
        requires
            ids_below_max(updates@),
        ensures
            final(self).token() == old(self).token(),
            final(self).offset() == offset_after(old(self).offset(), updates@),
            r@.len() == updates@.filter(|u: TelegramUpdate| brings_message(u)).len(),
            forall|k: int| 0 <= k < r@.len() ==> inbound_message(
                updates@.filter(|u: TelegramUpdate| brings_message(u))[k],
                #[trigger] r@[k],
                now,
            ),
    {
        let ghost pred = |u: TelegramUpdate| brings_message(u);
        let ghost start = self.offset;
        let mut out: Vec<ChatMessage> = Vec::new();
        let n = updates.len();
        let mut i: usize = 0;
        while i < n
            invariant
                n == updates@.len(),
                i <= n,
                ids_below_max(updates@),
                pred == (|u: TelegramUpdate| brings_message(u)),
                self.token@ == old(self).token(),
                start == old(self).offset(),
                self.offset == offset_after(start, updates@.take(i as int)),
                out@.len() == updates@.take(i as int).filter(pred).len(),
                forall|k: int| 0 <= k < out@.len() ==> inbound_message(
                    updates@.take(i as int).filter(pred)[k],
                    #[trigger] out@[k],
                    now,
                ),
            decreases n - i,
        {
            let u = &updates[i];
            assert(updates@[i as int].update_id matches Some(v) ==> v < i64::MAX);
            let (next, msg) = telegram_inbound(self.offset, u, now);
            proof {
                assert(updates@.take(i + 1).drop_last() =~= updates@.take(i as int));
                assert(updates@.take(i + 1).last() == updates@[i as int]);
                reveal_with_fuel(Seq::<_>::filter, 1);
            }
            self.offset = next;
            match msg {
                Some(m) => {
                    let ghost before = out@;
                    out.push(m);
                    proof {
                        assert(updates@.take(i + 1).filter(pred) == updates@.take(i as int).filter(pred).push(updates@[i as int]));
                        assert forall|k: int| 0 <= k < out@.len() implies inbound_message(
                            updates@.take(i + 1).filter(pred)[k],
                            #[trigger] out@[k],
                            now,
                        ) by {
                            if k < before.len() {
                                assert(out@[k] == before[k]);
                            }
                        }
                    }
                },
                None => {
                    assert(updates@.take(i + 1).filter(pred) == updates@.take(i as int).filter(pred));
                },
            }
            i = i + 1;
        }
        assert(updates@.take(n as int) =~= updates@);
        out
    }
}

/// The base URL of the Telegram Bot API for a token.
pub fn telegram_api_base(token: &str) -> (r: String)
    ensures
        r@ == "https://api.telegram.org/bot"@ + token@,
{
    let mut m: Vec<char> = Vec::new();
    push_str(&mut m, "https://api.telegram.org/bot");
    push_str(&mut m, token);
    string_from_chars(m.as_slice())
}

/// The URL for sending a Telegram message, or the refusal when no token is set.
pub fn telegram_send_url(config: &HubConfig) -> (r: Result<String, String>)
    ensures
        config.telegram_token@.len() == 0 ==> (r matches Err(e) && e@ == "Telegram not configured"@),
        config.telegram_token@.len() > 0 ==> (r matches Ok(u) && u@ == "https://api.telegram.org/bot"@ + config.telegram_token@ + "/sendMessage"@),
{
    if config.telegram_token.as_str().is_empty() {
        return Err(owned("Telegram not configured"));
    }
    let mut m: Vec<char> = Vec::new();
    push_str(&mut m, "https://api.telegram.org/bot");
    push_str(&mut m, config.telegram_token.as_str());
    push_str(&mut m, "/sendMessage");
    Ok(string_from_chars(m.as_slice()))
}

// ───────────────────────── reading back chat ids ─────────────────────────

proof fn lemma_digit_char(k: int)
    requires
        0 <= k < 10,
    ensures
        (crate::text::digit_char(k) as u32) == 48 + k,
{
}

/// The decimal form of a number is a non-empty run of digits, without a
/// sign, that reads back as the number.
pub proof fn lemma_decimal_digits(n: nat)
    ensures
        all_digits(decimal(n)),
        digits_value(decimal(n)) == n,
        decimal(n).len() > 0,
        decimal(n)[0] != '-' && decimal(n)[0] != '+',
    decreases n,
{
    lemma_digit_char((n % 10) as int);
    if n < 10 {
        let e = decimal(n);
        assert(e.drop_last() =~= Seq::<char>::empty());
        assert(n % 10 == n);
        assert(e.last() == crate::text::digit_char(n as int));
        assert(digits_value(e) == digits_value(e.drop_last()) * 10 + ((e.last() as u32) as int - 48));
    }
    if n >= 10 {
        lemma_decimal_digits(n / 10);
        let d = decimal(n / 10);
        let e = decimal(n);
        assert(e == d.push(crate::text::digit_char((n % 10) as int)));
        assert(e.drop_last() =~= d);
        assert(e.last() == crate::text::digit_char((n % 10) as int));
        assert(digits_value(e) == digits_value(d) * 10 + ((e.last() as u32) as int - 48));
        assert(digits_value(e) == (n / 10) * 10 + (n % 10));
        assert forall|i: int| 0 <= i < e.len() implies is_digit(#[trigger] e[i]) by {
            if i < d.len() {
                assert(e[i] == d[i]);
            }
        }
        assert(e[0] == d[0]);
    }
}

/// A chat id written out by the Telegram bridge reads back as the same id, so
/// an answer goes back to the chat the message came from.
pub proof fn law_chat_id_round_trip(chat_id: i64)
    ensures
        parse_i64_spec(signed_decimal(chat_id as int)) == Some(chat_id),
{
    reveal_strlit("-");
    if chat_id < 0 {
        let m = (-(chat_id as int)) as nat;
        lemma_decimal_digits(m);
        let s = signed_decimal(chat_id as int);
        assert(s == seq!['-'] + decimal(m));
        assert(unsigned_part(s) =~= decimal(m));
    } else {
        lemma_decimal_digits(chat_id as nat);
        assert(unsigned_part(signed_decimal(chat_id as int)) =~= decimal(chat_id as nat));
    }
}

/// A Telegram message the bridge brings in is answered to the chat it came
/// from.
pub proof fn law_telegram_answer_goes_back(u: TelegramUpdate, m: ChatMessage, first: Seq<char>)
    requires
        brings_message(u),
        m.source@ == "telegram/"@ + first,
        m.reply_to@ == signed_decimal(match u.chat_id { Some(c) => c as int, None => 0 }),
    ensures
        telegram_target(m) == Some(match u.chat_id { Some(c) => c, None => 0i64 }),
{
    let c: i64 = match u.chat_id { Some(c) => c, None => 0i64 };
    law_chat_id_round_trip(c);
    reveal_strlit("telegram/");
    assert(m.source@.subrange(0, 9) =~= "telegram/"@);
    lemma_decimal_digits(if c < 0 { (-(c as int)) as nat } else { c as nat });
    assert(m.reply_to@.len() > 0);
}

} // verus!
