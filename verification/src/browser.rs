//! Searching through a Chrome browser over its DevTools protocol: the
//! addresses and messages involved, and the reading of the browser's replies.
use vstd::prelude::*;
use crate::json::{
    json_field, json_field_debug, json_field_is_object, json_i64_field, json_str_field,
    spec_json_debug, spec_json_field, spec_json_i64_field, spec_json_is_object, spec_json_str_field,
};
use crate::text::{decimal, owned, push_decimal, push_str, signed_decimal, string_from_chars};

verus! {

/// The address of the browser's version endpoint on `port`.
pub open spec fn version_url_spec(port: u16) -> Seq<char> {
    "http://localhost:"@ + decimal(port as nat) + "/json/version"@
}

/// `http://localhost:<port>/json/version`.
pub fn version_url(port: u16) -> (r: String)
    ensures
        r@ == version_url_spec(port),
{
    let mut m: Vec<char> = Vec::new();
    push_str(&mut m, "http://localhost:");
    push_decimal(port as u64, &mut m);
    push_str(&mut m, "/json/version");
    assert(m@ =~= version_url_spec(port));
    string_from_chars(m.as_slice())
}

/// The refusal when the browser cannot be reached on `port`.
pub open spec fn unavailable_spec(port: u16, reason: Seq<char>) -> Seq<char> {
    "Chrome not available (start Chrome with --remote-debugging-port="@ + decimal(port as nat) + "): "@
        + reason
}

/// The refusal when the browser cannot be reached on `port`, for `reason`.
pub fn browser_unavailable(port: u16, reason: &str) -> (r: String)
    ensures
        r@ == unavailable_spec(port, reason@),
{
    let mut m: Vec<char> = Vec::new();
    push_str(&mut m, "Chrome not available (start Chrome with --remote-debugging-port=");
    push_decimal(port as u64, &mut m);
    push_str(&mut m, "): ");
    push_str(&mut m, reason);
    assert(m@ =~= unavailable_spec(port, reason@));
    string_from_chars(m.as_slice())
}

/// The web-socket address in the browser's version answer.
pub fn websocket_url(version: &serde_json::Value) -> (r: Result<String, String>)
    ensures
        match spec_json_str_field(*version, "webSocketDebuggerUrl"@) {
            Some(u) => r matches Ok(s) && s@ == u,
            None => r matches Err(e) && e@ == "Chrome not running with --remote-debugging-port"@,
        },
{
    match json_str_field(version, "webSocketDebuggerUrl") {
        Some(u) => Ok(u),
        None => Err(owned("Chrome not running with --remote-debugging-port")),
    }
}

/// The id of the tab the browser opened.
pub fn target_id(created: &serde_json::Value) -> (r: Result<String, String>)
    ensures
        match spec_json_str_field(*created, "targetId"@) {
            Some(t) => r matches Ok(s) && s@ == t,
            None => r matches Err(e) && e@ == "no targetId"@,
        },
{
    match json_str_field(created, "targetId") {
        Some(t) => Ok(t),
        None => Err(owned("no targetId")),
    }
}

/// The id of the session attached to a tab.
pub fn session_id(attached: &serde_json::Value) -> (r: Result<String, String>)
    ensures
        match spec_json_str_field(*attached, "sessionId"@) {
            Some(t) => r matches Ok(s) && s@ == t,
            None => r matches Err(e) && e@ == "no sessionId"@,
        },
{
    match json_str_field(attached, "sessionId") {
        Some(t) => Ok(t),
        None => Err(owned("no sessionId")),
    }
}

/// The text a page evaluation returned, or the empty text.
pub fn evaluated_text(evaluation: &serde_json::Value) -> (r: String)
    ensures
        r@ == match spec_json_str_field(spec_json_field(*evaluation, "result"@), "value"@) {
            Some(t) => t,
            None => ""@,
        },
{
    proof {
        reveal_strlit("");
    }
    let result = json_field(evaluation, "result");
    match json_str_field(&result, "value") {
        Some(t) => t,
        None => String::new(),
    }
}

/// What a message from the browser means to a command waiting for the
/// answer with id `expected`.
#[derive(Debug)]
pub enum CdpReply {
    /// Not the awaited answer: keep reading.
    Other,
    /// The command failed.
    Failed(String),
    /// The command's result.
    Done(serde_json::Value),
}

/// Reads a message from the browser for the command with id `expected`.
pub fn cdp_reply(message: &serde_json::Value, expected: i64) -> (r: CdpReply)
    ensures
        spec_json_i64_field(*message, "id"@) != Some(expected) ==> r is Other,
        spec_json_i64_field(*message, "id"@) == Some(expected) && spec_json_is_object(*message, "error"@)
            ==> (r matches CdpReply::Failed(e) && e@ == "CDP error: "@ + spec_json_debug(*message, "error"@)),
        spec_json_i64_field(*message, "id"@) == Some(expected) && !spec_json_is_object(*message, "error"@)
            ==> (r matches CdpReply::Done(v) && v == spec_json_field(*message, "result"@)),
{
    match json_i64_field(message, "id") {
        Some(id) => {
            if id != expected {
                return CdpReply::Other;
            }
        },
        None => {
            return CdpReply::Other;
        },
    }
    if json_field_is_object(message, "error") {
        let d = json_field_debug(message, "error");
        let mut m: Vec<char> = Vec::new();
        push_str(&mut m, "CDP error: ");
        push_str(&mut m, d.as_str());
        return CdpReply::Failed(string_from_chars(m.as_slice()));
    }
    CdpReply::Done(json_field(message, "result"))
}

/// The refusal when the answer with id `id` did not come in time.
pub fn cdp_timeout(id: i64) -> (r: String)
    ensures
        r@ == "CDP timeout (id="@ + signed_decimal(id as int) + ")"@,
{
    let mut m: Vec<char> = Vec::new();
    push_str(&mut m, "CDP timeout (id=");
    crate::text::push_signed_decimal(id, &mut m);
    push_str(&mut m, ")");
    string_from_chars(m.as_slice())
}

} // verus!
