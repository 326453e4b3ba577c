//! Saved conversations: the list shown to the user (most recently updated
//! first, at most fifty) and the summary remembered for each saved session.
use vstd::prelude::*;
use crate::models::{ChatMsg, Session};
use crate::order::{is_sorted_perm, sort_desc_indices};
use crate::text::{chars_of, join, join_chars, push_str, string_from_chars, take_chars};

verus! {

/// How many sessions the list keeps.
pub const SESSION_LIST_LIMIT: usize = 50;

/// How many characters of a conversation its summary keeps.
pub const SUMMARY_CHARS: usize = 300;

/// How many characters of the summary its title keeps.
pub const TITLE_CHARS: usize = 80;

/// A message as one line of conversation text: `role: content`.
pub open spec fn message_line(m: ChatMsg) -> Seq<char> {
    m.role@ + ": "@ + m.content@
}

/// A conversation as text: its messages' lines joined by newlines.
pub open spec fn conversation_text(ms: Seq<ChatMsg>) -> Seq<char> {
    join(ms.map_values(|m: ChatMsg| message_line(m)), "\n"@)
}

/// The first `k` characters of `s`, or all of it when shorter.
pub open spec fn prefix_chars(s: Seq<char>, k: nat) -> Seq<char> {
    if k <= s.len() {
        s.take(k as int)
    } else {
        s
    }
}

/// The conversation text of `messages`.
pub fn conversation(messages: &Vec<ChatMsg>) -> (r: String)
    ensures
        r@ == conversation_text(messages@),
{
    let ghost lines_spec = messages@.map_values(|m: ChatMsg| message_line(m));
    let mut lines: Vec<Vec<char>> = Vec::new();
    let n = messages.len();
    let mut i: usize = 0;
    while i < n
        invariant
            n == messages@.len(),
            i <= n,
            lines_spec == messages@.map_values(|m: ChatMsg| message_line(m)),
            lines@.len() == i,
            forall|k: int| 0 <= k < i ==> (#[trigger] lines@[k])@ == lines_spec[k],
        decreases n - i,
    {
        let mut l: Vec<char> = Vec::new();
        push_str(&mut l, messages[i].role.as_str());
        push_str(&mut l, ": ");
        push_str(&mut l, messages[i].content.as_str());
        assert(l@ =~= message_line(messages@[i as int]));
        lines.push(l);
        i = i + 1;
    }
    assert(lines@.map_values(|p: Vec<char>| p@) =~= lines_spec);
    let text = join_chars(&lines, chars_of("\n").as_slice());
    string_from_chars(text.as_slice())
}

/// What is remembered of a saved session: a title (the first 80
/// characters of the summary) and a summary (the first 300 characters of the
/// conversation text).
pub fn session_summary(session: &Session) -> (r: (String, String))
    ensures
        r.1@ == prefix_chars(conversation_text(session.messages@), SUMMARY_CHARS as nat),
        r.0@ == prefix_chars(r.1@, TITLE_CHARS as nat),
{
    let full = conversation(&session.messages);
    let fc = chars_of(full.as_str());
    let short = take_chars(fc.as_slice(), SUMMARY_CHARS);
    let title = take_chars(short.as_slice(), TITLE_CHARS);
    (string_from_chars(title.as_slice()), string_from_chars(short.as_slice()))
}

/// Copies a conversation.
pub fn clone_messages(v: &Vec<ChatMsg>) -> (r: Vec<ChatMsg>)
    ensures
        r@ == v@,
{
    let mut out: Vec<ChatMsg> = Vec::new();
    let n = v.len();
    let mut i: usize = 0;
    while i < n
        invariant
            n == v@.len(),
            i <= n,
            out@ == v@.take(i as int),
        decreases n - i,
    {
        out.push(v[i].clone());
        assert(v@.take(i + 1) =~= v@.take(i as int).push(v@[i as int]));
        i = i + 1;
    }
    assert(v@.take(n as int) =~= v@);
    out
}

/// Two sessions hold the same values.
pub open spec fn same_session(a: Session, b: Session) -> bool {
    &&& a.id == b.id
    &&& a.tool_id == b.tool_id
    &&& a.title == b.title
    &&& a.messages@ == b.messages@
    &&& a.created == b.created
    &&& a.updated == b.updated
}

/// Copies a session.
pub fn clone_session(s: &Session) -> (r: Session)
    ensures
        same_session(r, *s),
{
    Session {
        id: s.id.clone(),
        tool_id: s.tool_id.clone(),
        title: s.title.clone(),
        messages: clone_messages(&s.messages),
        created: s.created.clone(),
        updated: s.updated.clone(),
    }
}

/// The update times of sessions.
pub open spec fn updated_keys(ss: Seq<Session>) -> Seq<Seq<char>> {
    ss.map_values(|s: Session| s.updated@)
}

/// `r` is the session list: the sessions in stable descending order of
/// their update time, at most fifty of them.
pub open spec fn session_list(ss: Seq<Session>, r: Seq<Session>) -> bool {
    &&& r.len() == (if SESSION_LIST_LIMIT < ss.len() { SESSION_LIST_LIMIT as int } else { ss.len() as int })
    &&& exists|p: Seq<usize>|
        #[trigger] is_sorted_perm(updated_keys(ss), p) && forall|i: int|
            0 <= i < r.len() ==> same_session(#[trigger] r[i], ss[p[i] as int])
}

/// The sessions as listed: most recently updated first (sessions updated at
/// the same time keep their order), at most fifty.
pub fn recent_sessions(sessions: &Vec<Session>) -> (r: Vec<Session>)
    ensures
        session_list(sessions@, r@),
{
    let n = sessions.len();
    let mut keys: Vec<Vec<char>> = Vec::new();
    let mut j: usize = 0;
    while j < n
        invariant
            n == sessions@.len(),
            j <= n,
            keys@.len() == j,
            forall|k: int| 0 <= k < j ==> (#[trigger] keys@[k])@ == sessions@[k].updated@,
        decreases n - j,
    {
        keys.push(chars_of(sessions[j].updated.as_str()));
        j = j + 1;
    }
    assert(keys@.map_values(|k: Vec<char>| k@) =~= updated_keys(sessions@));
    let p = sort_desc_indices(&keys);
    let take = if SESSION_LIST_LIMIT < n { SESSION_LIST_LIMIT } else { n };
    let mut out: Vec<Session> = Vec::new();
    let mut k: usize = 0;
    while k < take
        invariant
            take <= n,
            n == sessions@.len(),
            is_sorted_perm(updated_keys(sessions@), p@),
            k <= take,
            out@.len() == k,
            forall|a: int| 0 <= a < k ==> same_session(#[trigger] out@[a], sessions@[p@[a] as int]),
        decreases take - k,
    {
        let idx = p[k];
        out.push(clone_session(&sessions[idx]));
        k = k + 1;
    }
    out
}

} // verus!
