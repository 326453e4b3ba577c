//! Tool calling: tool definitions, a registry of tools with their handlers,
//! and the accumulation of streamed tool-call fragments into complete calls.
use vstd::prelude::*;
use crate::json::{
    json_array_item, json_array_len, json_clone, json_field, json_from_str_or_null, json_null,
    json_str_field, json_u64_field, spec_json_array_item, spec_json_array_len, spec_json_field,
    spec_json_or_null, spec_json_str_field, spec_json_u64_field,
};
use crate::text::{append_chars, chars_of, decimal, push_decimal, push_str, str_eq, string_from_chars};

verus! {

/// A tool as described to the language model: a name, a description and a
/// JSON Schema of its parameters.
#[derive(Debug)]
pub struct ToolDef {
    pub name: String,
    pub description: String,
    pub parameters: serde_json::Value,
}

impl Clone for ToolDef {
    fn clone(&self) -> (r: Self)
        ensures
            r == *self,
    {
        ToolDef {
            name: self.name.clone(),
            description: self.description.clone(),
            parameters: json_clone(&self.parameters),
        }
    }
}

/// The outcome of running a tool.
#[derive(Debug)]
pub struct ToolResult {
    pub success: bool,
    pub value: serde_json::Value,
    pub error: Option<String>,
}

impl ToolResult {
    /// A successful result carrying `value`.
    pub fn ok(value: serde_json::Value) -> (r: Self)
        ensures
            r.success,
            r.value == value,
            r.error is None,
    {
        ToolResult { success: true, value, error: None }
    }

    /// A failed result carrying the message `msg` and a null value.
    pub fn err(msg: String) -> (r: Self)
        ensures
            !r.success,
            r.value == spec_json_or_null("null"@),
            r.error == Some(msg),
    {
        ToolResult { success: false, value: json_null(), error: Some(msg) }
    }
}

/// The message for a call of a tool that is not registered.
pub open spec fn unknown_tool_message(name: Seq<char>) -> Seq<char> {
    "Unknown tool: "@ + name
}

/// The failed result for a call of a tool that is not registered.
pub fn unknown_tool(name: &str) -> (r: ToolResult)
    ensures
        !r.success,
        r.value == spec_json_or_null("null"@),
        r.error matches Some(e) && e@ == unknown_tool_message(name@),
{
    let mut m: Vec<char> = Vec::new();
    push_str(&mut m, "Unknown tool: ");
    push_str(&mut m, name);
    assert(m@ =~= unknown_tool_message(name@));
    ToolResult::err(string_from_chars(m.as_slice()))
}

/// A registered tool: its definition and its handler.
pub struct ToolEntry<H> {
    pub def: ToolDef,
    pub handler: H,
}

/// Position of the entry named `name`, if any.
pub open spec fn entry_index<H>(s: Seq<ToolEntry<H>>, name: Seq<char>) -> Option<int> {
    if exists|i: int| 0 <= i < s.len() && (#[trigger] s[i]).def.name@ == name {
        Some(choose|i: int| 0 <= i < s.len() && (#[trigger] s[i]).def.name@ == name)
    } else {
        None
    }
}

/// No two entries share a name.
pub open spec fn names_distinct<H>(s: Seq<ToolEntry<H>>) -> bool {
    forall|i: int, j: int|
        0 <= i < s.len() && 0 <= j < s.len() && i != j ==> (#[trigger] s[i]).def.name@ != (
        #[trigger] s[j]).def.name@
}

/// Registering: the entry replaces the one with the same name, or is appended.
pub open spec fn register_entry<H>(s: Seq<ToolEntry<H>>, e: ToolEntry<H>) -> Seq<ToolEntry<H>> {
    match entry_index(s, e.def.name@) {
        Some(i) => s.update(i, e),
        None => s.push(e),
    }
}

/// The definition registered under `name`, if any.
pub open spec fn def_of<H>(s: Seq<ToolEntry<H>>, name: Seq<char>) -> Option<ToolDef> {
    match entry_index(s, name) {
        Some(i) => Some(s[i].def),
        None => None,
    }
}

/// With distinct names, the position holding a name is where `entry_index` points.
pub proof fn lemma_entry_index_at<H>(s: Seq<ToolEntry<H>>, name: Seq<char>, i: int)
    requires
        names_distinct(s),
        0 <= i < s.len(),
        s[i].def.name@ == name,
    ensures
        entry_index(s, name) == Some(i),
{
    let j = choose|j: int| 0 <= j < s.len() && (#[trigger] s[j]).def.name@ == name;
    assert(j == i);
}

/// The entry registered under `name`, if any.
pub open spec fn entry_of<H>(s: Seq<ToolEntry<H>>, name: Seq<char>) -> Option<ToolEntry<H>> {
    match entry_index(s, name) {
        Some(i) => Some(s[i]),
        None => None,
    }
}

/// Registering a tool keeps names distinct; the tool is then found under its
/// name (replacing any tool of that name), and every other name finds what it
/// found before.
pub proof fn law_registered_tool_is_found<H>(s: Seq<ToolEntry<H>>, e: ToolEntry<H>, other: Seq<char>)
    requires
        names_distinct(s),
    ensures
        names_distinct(register_entry(s, e)),
        entry_of(register_entry(s, e), e.def.name@) == Some(e),
        other != e.def.name@ ==> entry_of(register_entry(s, e), other) == entry_of(s, other),
{
    let t = register_entry(s, e);
    let name = e.def.name@;
    match entry_index(s, name) {
        Some(i) => {
            assert(0 <= i < s.len() && s[i].def.name@ == name);
            assert forall|a: int, b: int|
                0 <= a < t.len() && 0 <= b < t.len() && a != b implies (#[trigger] t[a]).def.name@
                != (#[trigger] t[b]).def.name@ by {}
            lemma_entry_index_at(t, name, i);
        },
        None => {
            assert forall|a: int, b: int|
                0 <= a < t.len() && 0 <= b < t.len() && a != b implies (#[trigger] t[a]).def.name@
                != (#[trigger] t[b]).def.name@ by {
                if a == s.len() {
                    assert(!(0 <= b < s.len() && s[b].def.name@ == name));
                } else if b == s.len() {
                    assert(!(0 <= a < s.len() && s[a].def.name@ == name));
                }
            }
            lemma_entry_index_at(t, name, s.len() as int);
        },
    }
    if other != name {
        match entry_index(s, other) {
            Some(j) => {
                assert(0 <= j < s.len() && s[j].def.name@ == other);
                assert(t[j] == s[j]);
                lemma_entry_index_at(t, other, j);
            },
            None => {
                if exists|k: int| 0 <= k < t.len() && (#[trigger] t[k]).def.name@ == other {
                    let k = choose|k: int| 0 <= k < t.len() && (#[trigger] t[k]).def.name@ == other;
                    if k < s.len() {
                        assert(t[k] == s[k] || t[k] == e);
                        assert(s[k].def.name@ == other || t[k] == e);
                    }
                    assert(false);
                }
            },
        }
    }
}

/// Tool definitions with their handlers, keyed by tool name, and whether the
/// built-in tools have all been registered.
pub struct ToolRegistry<H> {
    entries: Vec<ToolEntry<H>>,
    ready: bool,
}

impl<H> ToolRegistry<H> {
    /// The registered tools, in the order their names were first registered.
    pub closed spec fn entries(&self) -> Seq<ToolEntry<H>> {
        self.entries@
    }

    /// Whether the registry has been marked ready.
    pub closed spec fn ready(&self) -> bool {
        self.ready
    }

    /// Well-formedness: names are distinct.
    pub open spec fn wf(&self) -> bool {
        names_distinct(self.entries())
    }

    /// An empty registry, not yet ready.
    pub fn new() -> (r: Self)
        ensures
            r.wf(),
            r.entries() == Seq::<ToolEntry<H>>::empty(),
            !r.ready(),
    {
        ToolRegistry { entries: Vec::new(), ready: false }
    }

    /// Marks the registry ready: every tool meant to be registered is.
    pub fn mark_ready(&mut self)
        ensures
            final(self).ready(),
            final(self).entries() == old(self).entries(),
            final(self).wf() == old(self).wf(),
    {
        self.ready = true;
    }

    /// Whether the registry has been marked ready.
    pub fn is_ready(&self) -> (r: bool)
        ensures
            r == self.ready(),
    {
        self.ready
    }

    fn find(&self, name: &str) -> (r: Option<usize>)
        requires
            self.wf(),
        ensures
            match r {
                Some(i) => i < self.entries@.len() && entry_index(self.entries@, name@) == Some(
                    i as int,
                ),
                None => entry_index(self.entries@, name@) is None,
            },
    {
        let n = self.entries.len();
        let mut i: usize = 0;
        while i < n
            invariant
                n == self.entries@.len(),
                i <= n,
                names_distinct(self.entries@),
                forall|k: int| 0 <= k < i ==> (#[trigger] self.entries@[k]).def.name@ != name@,
            decreases n - i,
        {
            if str_eq(self.entries[i].def.name.as_str(), name) {
                proof {
                    lemma_entry_index_at(self.entries@, name@, i as int);
                }
                return Some(i);
            }
            i = i + 1;
        }
        None
    }

    /// Registers a tool under its definition's name, replacing any tool of
    /// that name.
    pub fn register(&mut self, def: ToolDef, handler: H)
        requires
            old(self).wf(),
        ensures
            final(self).wf(),
            final(self).entries() == register_entry(
                old(self).entries(),
                ToolEntry { def, handler },
            ),
            final(self).ready() == old(self).ready(),
    {
        let ghost before = self.entries@;
        let ghost name = def.name@;
        let found = self.find(def.name.as_str());
        let e = ToolEntry { def, handler };
        let ghost eg = e;
        match found {
            Some(i) => {
                self.entries.set(i, e);
                proof {
                    assert forall|a: int, b: int|
                        0 <= a < self.entries@.len() && 0 <= b < self.entries@.len() && a != b
                        implies (#[trigger] self.entries@[a]).def.name@ != (
                        #[trigger] self.entries@[b]).def.name@ by {
                        assert(before[i as int].def.name@ == name);
                    }
                }
            },
            None => {
                self.entries.push(e);
                proof {
                    assert forall|a: int, b: int|
                        0 <= a < self.entries@.len() && 0 <= b < self.entries@.len() && a != b
                        implies (#[trigger] self.entries@[a]).def.name@ != (
                        #[trigger] self.entries@[b]).def.name@ by {
                        if a == before.len() {
                            assert(self.entries@[b] == before[b]);
                        } else if b == before.len() {
                            assert(self.entries@[a] == before[a]);
                        } else {
                            assert(self.entries@[a] == before[a]);
                            assert(self.entries@[b] == before[b]);
                        }
                    }
                }
            },
        }
        assert(self.entries@ == register_entry(before, eg));
    }

    /// The definition of the tool named `name`, if registered.
    pub fn get_def(&self, name: &str) -> (r: Option<ToolDef>)
        requires
            self.wf(),
        ensures
            r == def_of(self.entries(), name@),
    {
        match self.find(name) {
            Some(i) => Some(self.entries[i].def.clone()),
            None => None,
        }
    }

    /// All tool definitions, in registration order.
    pub fn list_defs(&self) -> (r: Vec<ToolDef>)
        ensures
            r@ == self.entries().map_values(|e: ToolEntry<H>| e.def),
    {
        let mut out: Vec<ToolDef> = Vec::new();
        let n = self.entries.len();
        let mut i: usize = 0;
        while i < n
            invariant
                n == self.entries@.len(),
                i <= n,
                out@ == self.entries@.take(i as int).map_values(|e: ToolEntry<H>| e.def),
            decreases n - i,
        {
            out.push(self.entries[i].def.clone());
            assert(self.entries@.take(i + 1).map_values(|e: ToolEntry<H>| e.def) =~= self.entries@.take(
                i as int,
            ).map_values(|e: ToolEntry<H>| e.def).push(self.entries@[i as int].def));
            i = i + 1;
        }
        assert(self.entries@.take(n as int) =~= self.entries@);
        out
    }

    /// Runs the tool named `name` on `params`; a name that is not registered
    /// gives the unknown-tool failure.
    pub fn execute(&self, name: &str, params: serde_json::Value) -> (r: ToolResult) where
        H: Fn(serde_json::Value) -> ToolResult,

        requires
            self.wf(),
            match entry_index(self.entries(), name@) {
                Some(i) => call_requires(self.entries()[i].handler, (params,)),
                None => true,
            },
        ensures
            match entry_index(self.entries(), name@) {
                Some(i) => call_ensures(self.entries()[i].handler, (params,), r),
                None => !r.success && r.value == spec_json_or_null("null"@) && (r.error matches Some(e)
                    && e@ == unknown_tool_message(name@)),
            },
    {
        match self.find(name) {
            Some(i) => {
                let h = &self.entries[i].handler;
                h(params)
            },
            None => unknown_tool(name),
        }
    }
}

// ───────────────────────── streamed tool calls ─────────────────────────

/// One streamed fragment of a tool call, as the model's stream carries it:
/// the call's position, and pieces of its name and arguments.
#[derive(Debug)]
pub struct ToolCallDelta {
    pub index: Option<u64>,
    pub name: Option<String>,
    pub arguments: Option<String>,
}

/// A fragment's view: index, name piece, arguments piece.
pub type DeltaView = (Option<u64>, Option<Seq<char>>, Option<Seq<char>>);

/// The view of an optional string.
pub open spec fn opt_view(o: Option<String>) -> Option<Seq<char>> {
    match o {
        Some(s) => Some(s@),
        None => None,
    }
}

/// The view of a fragment.
pub open spec fn delta_view(d: ToolCallDelta) -> DeltaView {
    (d.index, opt_view(d.name), opt_view(d.arguments))
}

/// The views of a list of fragments.
pub open spec fn deltas_view(ds: Seq<ToolCallDelta>) -> Seq<DeltaView> {
    ds.map_values(|d: ToolCallDelta| delta_view(d))
}

/// A partial call: its index, the name and the arguments text gathered so far.
pub type PendingCall = (usize, Seq<char>, Seq<char>);

/// Position of the partial call with index `idx`, if any.
pub open spec fn pending_index(s: Seq<PendingCall>, idx: usize) -> Option<int> {
    if exists|i: int| 0 <= i < s.len() && (#[trigger] s[i]).0 == idx {
        Some(choose|i: int| 0 <= i < s.len() && (#[trigger] s[i]).0 == idx)
    } else {
        None
    }
}

/// No two partial calls share an index.
pub open spec fn indices_distinct(s: Seq<PendingCall>) -> bool {
    forall|i: int, j: int| 0 <= i < s.len() && 0 <= j < s.len() && i != j ==> (#[trigger] s[i]).0 != (#[trigger] s[j]).0
}

/// The text of an optional piece (empty when absent).
pub open spec fn piece(o: Option<Seq<char>>) -> Seq<char> {
    match o {
        Some(s) => s,
        None => Seq::<char>::empty(),
    }
}

/// Applying one fragment: the call at its index (0 when absent) grows by the
/// name and arguments pieces; a new index starts a new call.
pub open spec fn apply_delta(s: Seq<PendingCall>, d: DeltaView) -> Seq<PendingCall> {
    let idx = (match d.0 { Some(v) => v, None => 0u64 }) as usize;
    match pending_index(s, idx) {
        Some(i) => s.update(i, (idx, s[i].1 + piece(d.1), s[i].2 + piece(d.2))),
        None => s.push((idx, piece(d.1), piece(d.2))),
    }
}

/// Applying fragments in order.
pub open spec fn apply_deltas(s: Seq<PendingCall>, ds: Seq<DeltaView>) -> Seq<PendingCall>
    decreases ds.len(),
{
    if ds.len() == 0 {
        s
    } else {
        apply_delta(apply_deltas(s, ds.drop_last()), ds.last())
    }
}

/// A complete tool call: index, tool name and parsed arguments.
#[derive(Debug)]
pub struct ToolCall {
    pub index: usize,
    pub name: String,
    pub arguments: serde_json::Value,
}

/// Gathers streamed tool-call fragments into complete calls.
#[derive(Debug)]
pub struct ToolCallAccumulator {
    calls: Vec<(usize, String, String)>,
}

/// The views of the partial calls.
pub open spec fn pending_view(v: Seq<(usize, String, String)>) -> Seq<PendingCall> {
    v.map_values(|c: (usize, String, String)| (c.0, c.1@, c.2@))
}

/// What the model's stream says in one event: the tool-call fragments of
/// `choices[0].delta.tool_calls` (when that is an array) and the text of
/// `choices[0].delta.content` (when that is a string).
#[derive(Debug)]
pub struct StreamEvent {
    pub tool_calls: Option<Vec<ToolCallDelta>>,
    pub content: Option<String>,
}

/// The view of a stream event.
pub type EventView = (Option<Seq<DeltaView>>, Option<Seq<char>>);

/// The view of a parsed stream event.
pub open spec fn event_view(e: StreamEvent) -> EventView {
    (
        match e.tool_calls {
            Some(v) => Some(deltas_view(v@)),
            None => None,
        },
        opt_view(e.content),
    )
}

/// The `choices[0].delta` object of an event (null when it has none).
pub open spec fn event_delta(v: serde_json::Value) -> serde_json::Value {
    spec_json_field(spec_json_array_item(v, "choices"@, 0), "delta"@)
}

/// The view of one `tool_calls` item: its `index` as an unsigned integer, and
/// `function.name` and `function.arguments` as strings.
pub open spec fn delta_item(item: serde_json::Value) -> DeltaView {
    let f = spec_json_field(item, "function"@);
    (spec_json_u64_field(item, "index"@), spec_json_str_field(f, "name"@), spec_json_str_field(f, "arguments"@))
}

/// What one stream event says: the fragments of `choices[0].delta.tool_calls`
/// when that is an array, and the text of `choices[0].delta.content` when
/// that is a string.
pub open spec fn value_event(v: serde_json::Value) -> EventView {
    let delta = event_delta(v);
    (
        match spec_json_array_len(delta, "tool_calls"@) {
            Some(n) => Some(Seq::new(n as nat, |i: int| delta_item(spec_json_array_item(delta, "tool_calls"@, i as usize)))),
            None => None,
        },
        spec_json_str_field(delta, "content"@),
    )
}

/// What one stream event says, read from its JSON text.  Text that is not
/// JSON reads as null, which says nothing.
pub open spec fn stream_event(data: Seq<char>) -> EventView {
    value_event(spec_json_or_null(data))
}

/// Reads one stream event.
pub fn parse_stream_value(v: &serde_json::Value) -> (r: StreamEvent)
    ensures
        event_view(r) == value_event(*v),
{
    let first = json_array_item(v, "choices", 0);
    let delta = json_field(&first, "delta");
    let tool_calls = match json_array_len(&delta, "tool_calls") {
        Some(n) => {
            let mut ds: Vec<ToolCallDelta> = Vec::new();
            let mut i: usize = 0;
            while i < n
                invariant
                    i <= n,
                    delta == event_delta(*v),
                    ds@.len() == i,
                    forall|k: int| 0 <= k < i ==> delta_view(#[trigger] ds@[k]) == delta_item(spec_json_array_item(delta, "tool_calls"@, k as usize)),
                decreases n - i,
            {
                let item = json_array_item(&delta, "tool_calls", i);
                let f = json_field(&item, "function");
                ds.push(ToolCallDelta {
                    index: json_u64_field(&item, "index"),
                    name: json_str_field(&f, "name"),
                    arguments: json_str_field(&f, "arguments"),
                });
                i = i + 1;
            }
            assert(deltas_view(ds@) =~= Seq::new(n as nat, |i: int| delta_item(spec_json_array_item(delta, "tool_calls"@, i as usize))));
            Some(ds)
        },
        None => None,
    };
    StreamEvent { tool_calls, content: json_str_field(&delta, "content") }
}

/// Reads one stream event from its JSON text.
pub fn parse_stream_event(data: &str) -> (r: StreamEvent)
    ensures
        event_view(r) == stream_event(data@),
{
    let v = json_from_str_or_null(data);
    parse_stream_value(&v)
}

/// The fragments an event carries, if it has a `tool_calls` array.
pub open spec fn event_deltas(v: serde_json::Value) -> Option<Seq<DeltaView>> {
    value_event(v).0
}

impl ToolCallAccumulator {
    /// The partial calls, in the order their indices first appeared.
    pub closed spec fn pending(&self) -> Seq<PendingCall> {
        pending_view(self.calls@)
    }

    /// Well-formedness: indices are distinct.
    pub closed spec fn wf(&self) -> bool {
        indices_distinct(pending_view(self.calls@))
    }

    /// An empty accumulator.
    pub fn new() -> (r: Self)
        ensures
            r.wf(),
            r.pending() == Seq::<PendingCall>::empty(),
    {
        let r = ToolCallAccumulator { calls: Vec::new() };
        assert(r.pending() =~= Seq::<PendingCall>::empty());
        r
    }

    /// Applies one fragment.
    fn apply(&mut self, d: &ToolCallDelta)
        requires
            old(self).wf(),
        ensures
            final(self).wf(),
            final(self).pending() == apply_delta(old(self).pending(), delta_view(*d)),
    {
        let ghost before = pending_view(self.calls@);
        let idx = (match d.index { Some(v) => v, None => 0u64 }) as usize;
        let n = self.calls.len();
        let mut i: usize = 0;
        while i < n
            invariant
                n == self.calls@.len(),
                i <= n,
                before == pending_view(self.calls@),
                forall|k: int| 0 <= k < i ==> (#[trigger] self.calls@[k]).0 != idx,
            ensures
                i <= n,
                before == pending_view(self.calls@),
                forall|k: int| 0 <= k < i ==> (#[trigger] self.calls@[k]).0 != idx,
                i < n ==> self.calls@[i as int].0 == idx,
            decreases n - i,
        {
            if self.calls[i].0 == idx {
                break;
            }
            i = i + 1;
        }
        let mut name_add: Vec<char> = Vec::new();
        let mut args_add: Vec<char> = Vec::new();
        match &d.name {
            Some(s) => { push_str(&mut name_add, s.as_str()); },
            None => {},
        }
        match &d.arguments {
            Some(s) => { push_str(&mut args_add, s.as_str()); },
            None => {},
        }
        assert(name_add@ =~= piece(delta_view(*d).1));
        assert(args_add@ =~= piece(delta_view(*d).2));
        if i < n {
            proof {
                let j = choose|j: int| 0 <= j < before.len() && (#[trigger] before[j]).0 == idx;
                assert(before[i as int].0 == idx);
                assert(j == i);
            }
            let mut nm = chars_of(self.calls[i].1.as_str());
            append_chars(&mut nm, name_add.as_slice());
            let mut ag = chars_of(self.calls[i].2.as_str());
            append_chars(&mut ag, args_add.as_slice());
            let entry = (idx, string_from_chars(nm.as_slice()), string_from_chars(ag.as_slice()));
            self.calls.set(i, entry);
            proof {
                assert(pending_view(self.calls@) =~= before.update(
                    i as int,
                    (idx, before[i as int].1 + name_add@, before[i as int].2 + args_add@),
                ));
                let after = pending_view(self.calls@);
                assert forall|a: int, b: int| 0 <= a < after.len() && 0 <= b < after.len() && a != b
                    implies (#[trigger] after[a]).0 != (#[trigger] after[b]).0 by {
                    assert(after[a].0 == before[a].0);
                    assert(after[b].0 == before[b].0);
                }
            }
        } else {
            assert(!(exists|k: int| 0 <= k < before.len() && (#[trigger] before[k]).0 == idx));
            let entry = (idx, string_from_chars(name_add.as_slice()), string_from_chars(args_add.as_slice()));
            self.calls.push(entry);
            proof {
                assert(pending_view(self.calls@) =~= before.push((idx, name_add@, args_add@)));
                let after = pending_view(self.calls@);
                assert forall|a: int, b: int| 0 <= a < after.len() && 0 <= b < after.len() && a != b
                    implies (#[trigger] after[a]).0 != (#[trigger] after[b]).0 by {
                    if a < before.len() && b < before.len() {
                        assert(after[a] == before[a]);
                        assert(after[b] == before[b]);
                    } else if a == before.len() {
                        assert(after[b] == before[b]);
                    } else {
                        assert(after[a] == before[a]);
                    }
                }
            }
        }
    }

    /// Applies the fragments of one stream event in order.
    pub fn feed_deltas(&mut self, deltas: &Vec<ToolCallDelta>)
        requires
            old(self).wf(),
        ensures
            final(self).wf(),
            final(self).pending() == apply_deltas(old(self).pending(), deltas_view(deltas@)),
    {
        let n = deltas.len();
        let mut i: usize = 0;
        while i < n
            invariant
                n == deltas@.len(),
                i <= n,
                self.wf(),
                self.pending() == apply_deltas(old(self).pending(), deltas_view(deltas@.take(i as int))),
            decreases n - i,
        {
            self.apply(&deltas[i]);
            assert(deltas_view(deltas@.take(i + 1)).drop_last() =~= deltas_view(deltas@.take(i as int)));
            i = i + 1;
        }
        assert(deltas@.take(n as int) =~= deltas@);
    }

    /// Takes one stream event: when it has a `tool_calls` array, applies its
    /// fragments and answers `true`; otherwise changes nothing and answers
    /// `false`.
    pub fn feed(&mut self, chunk: &serde_json::Value) -> (r: bool)
        requires
            old(self).wf(),
        ensures
            final(self).wf(),
            r == event_deltas(*chunk) is Some,
            match event_deltas(*chunk) {
                Some(ds) => final(self).pending() == apply_deltas(old(self).pending(), ds),
                None => final(self).pending() == old(self).pending(),
            },
    {
        let ev = parse_stream_value(chunk);
        match ev.tool_calls {
            Some(ds) => {
                self.feed_deltas(&ds);
                true
            },
            None => false,
        }
    }

    /// Turns every partial call into a complete call (arguments parsed as
    /// JSON; text that is not JSON gives null) and empties the accumulator.
    pub fn collect(&mut self) -> (r: Vec<ToolCall>)
        requires
            old(self).wf(),
        ensures
            final(self).wf(),
            final(self).pending() == Seq::<PendingCall>::empty(),
            r@.len() == old(self).pending().len(),
            forall|i: int|
                0 <= i < r@.len() ==> {
                    &&& (#[trigger] r@[i]).index == old(self).pending()[i].0
                    &&& r@[i].name@ == old(self).pending()[i].1
                    &&& r@[i].arguments == spec_json_or_null(old(self).pending()[i].2)
                },
    {
        let mut out: Vec<ToolCall> = Vec::new();
        let n = self.calls.len();
        let mut i: usize = 0;
        while i < n
            invariant
                n == self.calls@.len(),
                self.calls@ == old(self).calls@,
                i <= n,
                out@.len() == i,
                forall|k: int|
                    0 <= k < i ==> {
                        &&& (#[trigger] out@[k]).index == self.calls@[k].0
                        &&& out@[k].name@ == self.calls@[k].1@
                        &&& out@[k].arguments == spec_json_or_null(self.calls@[k].2@)
                    },
            decreases n - i,
        {
            let c = &self.calls[i];
            let call = ToolCall {
                index: c.0,
                name: c.1.clone(),
                arguments: json_from_str_or_null(c.2.as_str()),
            };
            out.push(call);
            i = i + 1;
        }
        self.calls = Vec::new();
        assert(self.pending() =~= Seq::<PendingCall>::empty());
        out
    }

    /// Whether some tool call is being gathered.
    pub fn has_pending(&self) -> (r: bool)
        ensures
            r == (self.pending().len() > 0),
    {
        self.calls.len() > 0
    }
}

impl Default for ToolCallAccumulator {
    fn default() -> (r: Self)
        ensures
            r.wf(),
            r.pending() == Seq::<PendingCall>::empty(),
    {
        ToolCallAccumulator::new()
    }
}

/// The id given to the result message of a call: `call_<index>`.
pub open spec fn tool_call_id(index: usize) -> Seq<char> {
    "call_"@ + decimal(index as nat)
}

/// The id of a call's result message.
pub fn result_message_id(call: &ToolCall) -> (r: String)
    ensures
        r@ == tool_call_id(call.index),
{
    let mut m: Vec<char> = Vec::new();
    push_str(&mut m, "call_");
    push_decimal(call.index as u64, &mut m);
    assert(m@ =~= tool_call_id(call.index));
    string_from_chars(m.as_slice())
}

} // verus!
