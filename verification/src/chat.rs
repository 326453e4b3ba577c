//! One round of a streamed chat completion: the server-sent-event text is cut
//! into lines, `data:` events are read, answer text is gathered and tool-call
//! fragments are accumulated; at the end of the stream the round either asks
//! for tool calls or gives the answer.
use vstd::prelude::*;
use crate::json::spec_json_or_null;
use crate::text::{
    append_chars, chars_eq, chars_of, push_str, seq_starts_with, starts_with_chars,
    string_from_chars, trim, trim_chars,
};
use crate::models::{ChatMsg, ToolConfig};
use crate::models::clone_strings;
use crate::text::{decimal, push_decimal, owned, str_eq};
use crate::tool_layer::{
    apply_deltas, parse_stream_event, PendingCall, ToolCall, ToolCallAccumulator,
    stream_event, deltas_view,
};

verus! {

/// `String::from_utf8_lossy`: the bytes as text, with each invalid sequence
/// replaced by U+FFFD.
pub uninterp spec fn spec_utf8_lossy(bytes: Seq<u8>) -> Seq<char>;

/// Decodes bytes as UTF-8, replacing invalid sequences (`String::from_utf8_lossy`).
/// Valid UTF-8 decodes to exactly the characters it encodes.
#[verifier::external_body]
pub(crate) fn utf8_lossy(bytes: &[u8]) -> (r: String)
    ensures
        r@ == spec_utf8_lossy(bytes@),
        vstd::utf8::valid_utf8(bytes@) ==> r@ == vstd::utf8::decode_utf8(bytes@),
{
    String::from_utf8_lossy(bytes).into_owned()
}

/// The state of a round: the partial tool calls, the answer text so far, and
/// whether a tool-call event was seen.
pub type RoundView = (Seq<PendingCall>, Seq<char>, bool);

/// The effect of one `data:` event (its JSON text) on the round.
pub open spec fn event_step(st: RoundView, has_tools: bool, data: Seq<char>) -> RoundView {
    let ev = stream_event(data);
    let st1 = match ev.0 {
        Some(ds) => if has_tools {
            (apply_deltas(st.0, ds), st.1, true)
        } else {
            st
        },
        None => st,
    };
    match ev.1 {
        Some(c) => (st1.0, st1.1 + c, st1.2),
        None => st1,
    }
}

/// The payload of an event line (`data: <payload>`), if the line is one.
pub open spec fn data_of(line: Seq<char>) -> Option<Seq<char>> {
    if seq_starts_with(line, "data: "@) {
        Some(line.skip(6))
    } else {
        None
    }
}

/// Position of the first newline, or the length when there is none.
pub open spec fn first_nl(s: Seq<char>) -> nat
    decreases s.len(),
{
    if s.len() == 0 {
        0
    } else if s[0] == '\n' {
        0
    } else {
        1 + first_nl(s.drop_first())
    }
}

/// Processing the complete lines of the buffer: each line is trimmed; event
/// lines are applied; `data: [DONE]` stops the processing of this chunk.  The
/// result is the new state and the text left in the buffer.
pub open spec fn drain(st: RoundView, has_tools: bool, buf: Seq<char>) -> (RoundView, Seq<char>)
    decreases buf.len(),
{
    let p = first_nl(buf);
    if p >= buf.len() {
        (st, buf)
    } else {
        let line = trim(buf.take(p as int));
        let rest = buf.skip((p + 1) as int);
        match data_of(line) {
            Some(d) => if d == "[DONE]"@ {
                (st, rest)
            } else {
                drain(event_step(st, has_tools, d), has_tools, rest)
            },
            None => drain(st, has_tools, rest),
        }
    }
}

proof fn lemma_first_nl(s: Seq<char>, p: int)
    requires
        0 <= p <= s.len(),
        forall|k: int| 0 <= k < p ==> s[k] != '\n',
        p < s.len() ==> s[p] == '\n',
    ensures
        first_nl(s) == p,
    decreases p,
{
    if p > 0 {
        lemma_first_nl(s.drop_first(), p - 1);
    }
}

/// How a round ended.
#[derive(Debug)]
pub enum RoundOutcome {
    /// The model asked for tool calls; `content` is the text it streamed meanwhile.
    ToolCalls { content: String, calls: Vec<ToolCall> },
    /// The model answered with `content`.
    Text { content: String },
}

/// The state of one streamed round.
pub struct StreamRound {
    buf: Vec<char>,
    acc: ToolCallAccumulator,
    content: Vec<char>,
    seen: bool,
    has_tools: bool,
}

impl StreamRound {
    /// The round's state.
    pub closed spec fn view(&self) -> RoundView {
        (self.acc.pending(), self.content@, self.seen)
    }

    /// Text received but not yet ended by a newline (or not yet processed
    /// after `[DONE]`).
    pub closed spec fn buffer(&self) -> Seq<char> {
        self.buf@
    }

    /// Whether the model has tools it may call (tool-call events count only
    /// then).
    pub closed spec fn tools_known(&self) -> bool {
        self.has_tools
    }

    /// Well-formedness.
    pub closed spec fn wf(&self) -> bool {
        self.acc.wf()
    }

    /// A new round; `has_tools` says whether the model has tools it may call.
    pub fn new(has_tools: bool) -> (r: Self)
        ensures
            r.wf(),
            r.view() == (Seq::<PendingCall>::empty(), Seq::<char>::empty(), false),
            r.buffer() == Seq::<char>::empty(),
            r.tools_known() == has_tools,
    {
        StreamRound {
            buf: Vec::new(),
            acc: ToolCallAccumulator::new(),
            content: Vec::new(),
            seen: false,
            has_tools,
        }
    }

    fn handle_event(&mut self, data: &[char])
        requires
            old(self).wf(),
        ensures
            final(self).wf(),
            final(self).view() == event_step(old(self).view(), old(self).tools_known(), data@),
            final(self).buffer() == old(self).buffer(),
            final(self).tools_known() == old(self).tools_known(),
    {
        let dstr = string_from_chars(data);
        let ev = parse_stream_event(dstr.as_str());
        if self.has_tools {
            match &ev.tool_calls {
                Some(ds) => {
                    self.seen = true;
                    self.acc.feed_deltas(ds);
                },
                None => {},
            }
        }
        match &ev.content {
            Some(c) => {
                push_str(&mut self.content, c.as_str());
            },
            None => {},
        }
    }

    /// Takes more stream text: appends it to the buffer and processes every
    /// complete line, as `drain` states.
    pub fn push_text(&mut self, text: &str)
        requires
            old(self).wf(),
        ensures
            final(self).wf(),
            final(self).tools_known() == old(self).tools_known(),
            (final(self).view(), final(self).buffer()) == drain(
                old(self).view(),
                old(self).tools_known(),
                old(self).buffer() + text@,
            ),
    {
        push_str(&mut self.buf, text);
        let ghost target = drain(old(self).view(), old(self).tools_known(), old(self).buffer() + text@);
        let done_marker = chars_of("[DONE]");
        let data_prefix = chars_of("data: ");
        loop
            invariant_except_break
                drain(self.view(), self.tools_known(), self.buffer()) == target,
            invariant
                self.wf(),
                self.tools_known() == old(self).tools_known(),
                done_marker@ == "[DONE]"@,
                data_prefix@ == "data: "@,
            ensures
                self.wf(),
                self.tools_known() == old(self).tools_known(),
                (self.view(), self.buffer()) == target,
            decreases self.buf@.len(),
        {
            let n = self.buf.len();
            let mut p: usize = 0;
            while p < n && self.buf[p] != '\n'
                invariant
                    n == self.buf@.len(),
                    p <= n,
                    forall|k: int| 0 <= k < p ==> self.buf@[k] != '\n',
                decreases n - p,
            {
                p = p + 1;
            }
            proof {
                lemma_first_nl(self.buf@, p as int);
            }
            if p >= n {
                break;
            }
            let mut head: Vec<char> = Vec::new();
            let mut rest: Vec<char> = Vec::new();
            let mut k: usize = 0;
            while k < n
                invariant
                    n == self.buf@.len(),
                    p < n,
                    k <= n,
                    k <= p ==> head@ == self.buf@.take(k as int) && rest@ == Seq::<char>::empty(),
                    k > p ==> head@ == self.buf@.take(p as int) && rest@ == self.buf@.subrange(p + 1, k as int),
                decreases n - k,
            {
                if k < p {
                    head.push(self.buf[k]);
                    assert(self.buf@.take(k + 1) =~= self.buf@.take(k as int).push(self.buf@[k as int]));
                } else if k > p {
                    rest.push(self.buf[k]);
                    assert(self.buf@.subrange(p + 1, k + 1) =~= self.buf@.subrange(p + 1, k as int).push(self.buf@[k as int]));
                }
                k = k + 1;
            }
            assert(rest@ =~= self.buf@.skip(p + 1));
            let line = trim_chars(head.as_slice());
            self.buf = rest;
            if starts_with_chars(line.as_slice(), data_prefix.as_slice()) {
                proof {
                    reveal_strlit("data: ");
                }
                let mut d: Vec<char> = Vec::new();
                let ln = line.len();
                assert(line@.subrange(6, 6) =~= Seq::<char>::empty());
                let mut j: usize = 6;
                while j < ln
                    invariant
                        ln == line@.len(),
                        6 <= j <= ln,
                        d@ == line@.subrange(6, j as int),
                    decreases ln - j,
                {
                    d.push(line[j]);
                    assert(line@.subrange(6, j + 1) =~= line@.subrange(6, j as int).push(line@[j as int]));
                    j = j + 1;
                }
                assert(d@ =~= line@.skip(6));
                if chars_eq(d.as_slice(), done_marker.as_slice()) {
                    break;
                }
                self.handle_event(d.as_slice());
            }
        }
    }

    /// Takes more stream bytes (decoded as `String::from_utf8_lossy` does).
    pub fn push_chunk(&mut self, bytes: &[u8])
        requires
            old(self).wf(),
        ensures
            final(self).wf(),
            final(self).tools_known() == old(self).tools_known(),
            (final(self).view(), final(self).buffer()) == drain(
                old(self).view(),
                old(self).tools_known(),
                old(self).buffer() + spec_utf8_lossy(bytes@),
            ),
    {
        let text = utf8_lossy(bytes);
        self.push_text(text.as_str());
    }

    /// Ends the round: when a tool-call event was seen and calls are pending,
    /// the calls (arguments parsed as JSON, or null) with the streamed text;
    /// otherwise the streamed text as the answer.
    pub fn finish(self) -> (r: RoundOutcome)
        requires
            self.wf(),
        ensures
            self.view().2 && self.view().0.len() > 0 ==> (r matches RoundOutcome::ToolCalls { content, calls } && {
                &&& content@ == self.view().1
                &&& calls@.len() == self.view().0.len()
                &&& forall|i: int| 0 <= i < calls@.len() ==> {
                    &&& (#[trigger] calls@[i]).index == self.view().0[i].0
                    &&& calls@[i].name@ == self.view().0[i].1
                    &&& calls@[i].arguments == spec_json_or_null(self.view().0[i].2)
                }
            }),
            !(self.view().2 && self.view().0.len() > 0) ==> (r matches RoundOutcome::Text { content } && content@ == self.view().1),
    {
        let mut me = self;
        if me.seen && me.acc.has_pending() {
            let calls = me.acc.collect();
            RoundOutcome::ToolCalls { content: string_from_chars(me.content.as_slice()), calls }
        } else {
            RoundOutcome::Text { content: string_from_chars(me.content.as_slice()) }
        }
    }
}


// ───────────────────────── planning a completion ─────────────────────────

/// The position of the first tool with id `id` (`Iterator::find`).
pub open spec fn first_tool(tools: Seq<ToolConfig>, id: Seq<char>) -> Option<int> {
    if exists|i: int| 0 <= i < tools.len() && (#[trigger] tools[i]).id@ == id {
        Some(choose|i: int| 0 <= i < tools.len() && (#[trigger] tools[i]).id@ == id && forall|k: int| 0 <= k < i ==> tools[k].id@ != id)
    } else {
        None
    }
}

/// Where a chat completion is sent.
#[derive(Debug)]
pub enum CompletionRoute {
    /// A command-line tool: the last message is written to its session.
    Process { command: String, args: Vec<String>, message: String },
    /// An API model.
    Api { name: String, api_base: String, api_key: String, model_name: String },
}

/// The refusal for a tool of an unknown type.
pub open spec fn unknown_type_message(tool_type: Seq<char>, name: Seq<char>) -> Seq<char> {
    "Unknown tool_type '"@ + tool_type + "' for tool '"@ + name + "'. Expected 'api' or 'process'."@
}

/// Finds the first tool with id `id`.
pub fn find_tool(tools: &Vec<ToolConfig>, id: &str) -> (r: Option<usize>)
    ensures
        match r {
            Some(i) => first_tool(tools@, id@) == Some(i as int) && i < tools@.len(),
            None => first_tool(tools@, id@) is None,
        },
{
    let n = tools.len();
    let mut i: usize = 0;
    while i < n
        invariant
            n == tools@.len(),
            i <= n,
            forall|k: int| 0 <= k < i ==> (#[trigger] tools@[k]).id@ != id@,
        decreases n - i,
    {
        if str_eq(tools[i].id.as_str(), id) {
            proof {
                let j = choose|j: int| 0 <= j < tools@.len() && (#[trigger] tools@[j]).id@ == id@ && forall|k: int| 0 <= k < j ==> tools@[k].id@ != id@;
                assert(tools@[i as int].id@ == id@);
                if j < i {
                    assert(tools@[j].id@ != id@);
                } else if j > i {
                    assert(tools@[i as int].id@ != id@);
                }
            }
            return Some(i);
        }
        i = i + 1;
    }
    None
}

/// Decides where a completion for tool `tool_id` goes, or why it cannot be made.
pub fn plan_completion(tools: &Vec<ToolConfig>, tool_id: &str, messages: &Vec<ChatMsg>) -> (r: Result<CompletionRoute, String>)
    ensures
        match first_tool(tools@, tool_id@) {
            None => r matches Err(e) && e@ == "tool not found"@,
            Some(i) => {
                let t = tools@[i];
                if t.tool_type@ == "process"@ {
                    if messages@.len() == 0 {
                        r matches Err(e) && e@ == "no message"@
                    } else {
                        r matches Ok(CompletionRoute::Process { command, args, message }) && command == t.command
                            && args@ == t.args@ && message == messages@.last().content
                    }
                } else if t.tool_type@ != "api"@ {
                    r matches Err(e) && e@ == unknown_type_message(t.tool_type@, t.name@)
                } else if t.api_key@.len() == 0 {
                    r matches Err(e) && e@ == "API Key not set: "@ + t.name@
                } else {
                    r matches Ok(CompletionRoute::Api { name, api_base, api_key, model_name }) && name == t.name
                        && api_base == t.api_base && api_key == t.api_key && model_name == t.model_name
                }
            },
        },
{
    let i = match find_tool(tools, tool_id) {
        Some(i) => i,
        None => {
            return Err(owned("tool not found"));
        },
    };
    let t = &tools[i];
    if str_eq(t.tool_type.as_str(), "process") {
        if messages.len() == 0 {
            return Err(owned("no message"));
        }
        let last = &messages[messages.len() - 1];
        return Ok(CompletionRoute::Process {
            command: t.command.clone(),
            args: clone_strings(&t.args),
            message: last.content.clone(),
        });
    }
    if !str_eq(t.tool_type.as_str(), "api") {
        let mut m: Vec<char> = Vec::new();
        push_str(&mut m, "Unknown tool_type '");
        push_str(&mut m, t.tool_type.as_str());
        push_str(&mut m, "' for tool '");
        push_str(&mut m, t.name.as_str());
        push_str(&mut m, "'. Expected 'api' or 'process'.");
        assert(m@ =~= unknown_type_message(t.tool_type@, t.name@));
        return Err(string_from_chars(m.as_slice()));
    }
    if t.api_key.as_str().is_empty() {
        let mut m: Vec<char> = Vec::new();
        push_str(&mut m, "API Key not set: ");
        push_str(&mut m, t.name.as_str());
        assert(m@ =~= "API Key not set: "@ + t.name@);
        return Err(string_from_chars(m.as_slice()));
    }
    Ok(CompletionRoute::Api {
        name: t.name.clone(),
        api_base: t.api_base.clone(),
        api_key: t.api_key.clone(),
        model_name: t.model_name.clone(),
    })
}

/// The system prompt sent with a completion: the given prompt (or a default
/// when it is empty), followed by the knowledge-base context.
pub open spec fn system_prompt_spec(given: Seq<char>, context: Seq<char>) -> Seq<char> {
    (if given.len() == 0 { "You are a helpful assistant."@ } else { given }) + context
}

/// Builds the system prompt of a completion.
pub fn completion_system_prompt(given: &str, context: &str) -> (r: String)
    ensures
        r@ == system_prompt_spec(given@, context@),
{
    let mut m: Vec<char> = Vec::new();
    if given.is_empty() {
        push_str(&mut m, "You are a helpful assistant.");
    } else {
        push_str(&mut m, given);
    }
    push_str(&mut m, context);
    string_from_chars(m.as_slice())
}

/// The text of the last message, or the empty string when there is none.
pub fn last_message_text(messages: &Vec<ChatMsg>) -> (r: String)
    ensures
        messages@.len() == 0 ==> r@ == Seq::<char>::empty(),
        messages@.len() > 0 ==> r == messages@.last().content,
{
    if messages.len() == 0 {
        String::new()
    } else {
        messages[messages.len() - 1].content.clone()
    }
}

/// The URL of the chat-completions endpoint under `api_base`.
pub fn completions_url(api_base: &str) -> (r: String)
    ensures
        r@ == api_base@ + "/v1/chat/completions"@,
{
    let mut m: Vec<char> = Vec::new();
    push_str(&mut m, api_base);
    push_str(&mut m, "/v1/chat/completions");
    string_from_chars(m.as_slice())
}

/// The `Authorization` header value for an API key.
pub fn bearer(api_key: &str) -> (r: String)
    ensures
        r@ == "Bearer "@ + api_key@,
{
    let mut m: Vec<char> = Vec::new();
    push_str(&mut m, "Bearer ");
    push_str(&mut m, api_key);
    string_from_chars(m.as_slice())
}

// ───────────────────────── the rounds of a completion ─────────────────────────

/// A tool call as the assistant message records it.
#[derive(Debug)]
pub struct WireToolCall {
    pub id: String,
    pub name: String,
    pub arguments: serde_json::Value,
}

/// A message sent to the model.
#[derive(Debug)]
pub enum WireMessage {
    /// A plain message: system prompt, user or assistant text.
    Text { role: String, content: String },
    /// The assistant's request for tool calls.
    AssistantCalls { content: String, tool_calls: Vec<WireToolCall> },
    /// The output of one tool call.
    ToolOutput { tool_call_id: String, name: String, content: String },
}

/// The id of the `i`-th call requested in round `round`: `call_<round>_<i>`.
pub open spec fn round_call_id(round: usize, i: int) -> Seq<char> {
    "call_"@ + decimal(round as nat) + "_"@ + decimal(i as nat)
}

/// The opening messages: the system prompt, then the conversation.
pub fn initial_messages(system_prompt: String, messages: &Vec<ChatMsg>) -> (r: Vec<WireMessage>)
    ensures
        r@.len() == messages@.len() + 1,
        r@[0] matches WireMessage::Text { role, content } && role@ == "system"@ && content == system_prompt,
        forall|i: int| 0 <= i < messages@.len() ==> ((#[trigger] r@[i + 1]) matches WireMessage::Text { role, content }
            && role == messages@[i].role && content == messages@[i].content),
{
    let mut out: Vec<WireMessage> = Vec::new();
    out.push(WireMessage::Text { role: owned("system"), content: system_prompt });
    let n = messages.len();
    let mut i: usize = 0;
    while i < n
        invariant
            n == messages@.len(),
            i <= n,
            out@.len() == i + 1,
            out@[0] matches WireMessage::Text { role, content } && role@ == "system"@ && content == system_prompt,
            forall|k: int| 0 <= k < i ==> ((#[trigger] out@[k + 1]) matches WireMessage::Text { role, content }
                && role == messages@[k].role && content == messages@[k].content),
        decreases n - i,
    {
        let m = &messages[i];
        out.push(WireMessage::Text { role: m.role.clone(), content: m.content.clone() });
        i = i + 1;
    }
    out
}

/// The assistant message that records the calls requested in round `round`.
pub fn assistant_tool_calls(round: usize, content: String, calls: &Vec<ToolCall>) -> (r: WireMessage)
    ensures
        r matches WireMessage::AssistantCalls { content: c, tool_calls } && c == content
            && tool_calls@.len() == calls@.len() && forall|i: int| 0 <= i < calls@.len() ==> {
                &&& (#[trigger] tool_calls@[i]).id@ == round_call_id(round, i)
                &&& tool_calls@[i].name == calls@[i].name
                &&& tool_calls@[i].arguments == calls@[i].arguments
            },
{
    let mut out: Vec<WireToolCall> = Vec::new();
    let n = calls.len();
    let mut i: usize = 0;
    while i < n
        invariant
            n == calls@.len(),
            i <= n,
            out@.len() == i,
            forall|k: int| 0 <= k < i ==> {
                &&& (#[trigger] out@[k]).id@ == round_call_id(round, k)
                &&& out@[k].name == calls@[k].name
                &&& out@[k].arguments == calls@[k].arguments
            },
        decreases n - i,
    {
        let mut id: Vec<char> = Vec::new();
        push_str(&mut id, "call_");
        push_decimal(round as u64, &mut id);
        push_str(&mut id, "_");
        push_decimal(i as u64, &mut id);
        assert(id@ =~= round_call_id(round, i as int));
        let c = &calls[i];
        out.push(WireToolCall {
            id: string_from_chars(id.as_slice()),
            name: c.name.clone(),
            arguments: crate::json::json_clone(&c.arguments),
        });
        i = i + 1;
    }
    WireMessage::AssistantCalls { content, tool_calls: out }
}

/// The message that carries the output of a call back to the model.
pub fn tool_output(call: &ToolCall, content: String) -> (r: WireMessage)
    ensures
        r matches WireMessage::ToolOutput { tool_call_id, name, content: c } && tool_call_id@
            == crate::tool_layer::tool_call_id(call.index) && name == call.name && c == content,
{
    let id = crate::tool_layer::result_message_id(call);
    WireMessage::ToolOutput { tool_call_id: id, name: call.name.clone(), content }
}

/// The most rounds a completion runs.
pub const MAX_ROUNDS: usize = 5;

/// The progress of a completion over its rounds: tools are offered in the
/// first round only; a round that asks for tool calls leads to another
/// round; a round that answers ends the completion; after `MAX_ROUNDS`
/// rounds of tool calls the completion ends with an empty answer.
pub struct CompletionRounds {
    round: usize,
    answer: String,
    done: bool,
}

impl CompletionRounds {
    /// The number of rounds that asked for tool calls so far.
    pub closed spec fn round(&self) -> usize {
        self.round
    }

    /// The answer so far.
    pub closed spec fn answer(&self) -> Seq<char> {
        self.answer@
    }

    /// Whether a round has answered.
    pub closed spec fn answered(&self) -> bool {
        self.done
    }

    /// A completion before its first round.
    pub fn new() -> (r: Self)
        ensures
            r.round() == 0,
            r.answer() == Seq::<char>::empty(),
            !r.answered(),
    {
        CompletionRounds { round: 0, answer: String::new(), done: false }
    }

    /// The current round's number.
    pub fn current_round(&self) -> (r: usize)
        ensures
            r == self.round(),
    {
        self.round
    }

    /// Whether another round is to be run.
    pub fn running(&self) -> (r: bool)
        ensures
            r == (!self.answered() && self.round() < MAX_ROUNDS),
    {
        !self.done && self.round < MAX_ROUNDS
    }

    /// Whether tool definitions go with the current round's request.
    pub fn offers_tools(&self, has_tools: bool) -> (r: bool)
        ensures
            r == (has_tools && self.round() == 0),
    {
        has_tools && self.round == 0
    }

    /// Records that the current round asked for tool calls.
    pub fn tool_round_done(&mut self)
        requires
            old(self).round() < MAX_ROUNDS,
        ensures
            final(self).round() == old(self).round() + 1,
            final(self).answer() == old(self).answer(),
            final(self).answered() == old(self).answered(),
    {
        self.round = self.round + 1;
    }

    /// Records that the current round answered with `content`: a non-empty
    /// answer is kept, and the completion ends.
    pub fn answer_round_done(&mut self, content: String)
        ensures
            final(self).round() == old(self).round(),
            final(self).answered(),
            final(self).answer() == if content@.len() > 0 { content@ } else { old(self).answer() },
    {
        if !content.as_str().is_empty() {
            self.answer = content;
        }
        self.done = true;
    }

    /// The answer of the completion.
    pub fn final_answer(&self) -> (r: String)
        ensures
            r@ == self.answer(),
    {
        self.answer.clone()
    }
}

} // verus!
