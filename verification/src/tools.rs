//! The built-in tools: their definitions, their registration, the checks
//! their handlers make on the parameters the model sends before any file,
//! process or network is touched, and the running of a batch of calls.
use vstd::prelude::*;
use crate::chat::WireMessage;
use crate::json::{
    json_from_str_or_null, json_str_field, json_to_text, json_u64_field, spec_json_or_null,
    spec_json_str_field, spec_json_text, spec_json_u64_field,
};
use crate::text::{chars_of, owned, push_str, str_eq, string_from_chars, take_chars};
use crate::tool_layer::{
    entry_index, entry_of, law_registered_tool_is_found, names_distinct, register_entry, tool_call_id,
    ToolCall, ToolDef, ToolEntry, ToolRegistry, ToolResult,
};

verus! {

/// How many tools are built in.
pub const BUILTIN_COUNT: usize = 7;

/// The name of the `i`-th built-in tool.
pub open spec fn builtin_name(i: int) -> Seq<char> {
    if i == 0 {
        "read_file"@
    } else if i == 1 {
        "write_file"@
    } else if i == 2 {
        "search_knowledge"@
    } else if i == 3 {
        "web_search"@
    } else if i == 4 {
        "memory_search"@
    } else if i == 5 {
        "memory_save"@
    } else {
        "run_code"@
    }
}

/// The description of the `i`-th built-in tool.
pub open spec fn builtin_description(i: int) -> Seq<char> {
    if i == 0 {
        "Read a file from the vault/knowledge base. Returns the file content as text."@
    } else if i == 1 {
        "Write content to a file in the vault. Creates parent directories if needed."@
    } else if i == 2 {
        "Search the knowledge base (indexed markdown files) for relevant documents."@
    } else if i == 3 {
        "Search the web. Uses Chrome CDP first, falls back to DuckDuckGo/Google."@
    } else if i == 4 {
        "Search past conversation memories for relevant facts from history."@
    } else if i == 5 {
        "Save an important fact to memory for future reference."@
    } else {
        "Execute a piece of code (Python/JavaScript/shell) and return the output."@
    }
}

/// The JSON Schema text of the `i`-th built-in tool's parameters.
pub open spec fn builtin_schema(i: int) -> Seq<char> {
    if i == 0 {
        "{\"type\":\"object\",\"properties\":{\"path\":{\"type\":\"string\",\"description\":\"File path relative to vault root (e.g. 'notes/meeting.md')\"}},\"required\":[\"path\"]}"@
    } else if i == 1 {
        "{\"type\":\"object\",\"properties\":{\"path\":{\"type\":\"string\",\"description\":\"File path relative to vault root (e.g. 'notes/output.md')\"},\"content\":{\"type\":\"string\",\"description\":\"Content to write\"}},\"required\":[\"path\",\"content\"]}"@
    } else if i == 2 {
        "{\"type\":\"object\",\"properties\":{\"query\":{\"type\":\"string\",\"description\":\"Search keywords\"},\"limit\":{\"type\":\"integer\",\"description\":\"Max results (default 5)\",\"default\":5}},\"required\":[\"query\"]}"@
    } else if i == 3 {
        "{\"type\":\"object\",\"properties\":{\"query\":{\"type\":\"string\",\"description\":\"Search query\"}},\"required\":[\"query\"]}"@
    } else if i == 4 {
        "{\"type\":\"object\",\"properties\":{\"query\":{\"type\":\"string\",\"description\":\"What to search for in memories\"}},\"required\":[\"query\"]}"@
    } else if i == 5 {
        "{\"type\":\"object\",\"properties\":{\"content\":{\"type\":\"string\",\"description\":\"The fact/content to remember\"},\"keywords\":{\"type\":\"string\",\"description\":\"Comma-separated keywords for search\"}},\"required\":[\"content\",\"keywords\"]}"@
    } else {
        "{\"type\":\"object\",\"properties\":{\"code\":{\"type\":\"string\",\"description\":\"The code to execute\"},\"language\":{\"type\":\"string\",\"description\":\"python / javascript / shell\",\"enum\":[\"python\",\"javascript\",\"shell\"],\"default\":\"python\"}},\"required\":[\"code\"]}"@
    }
}

/// `d` is the definition of the `i`-th built-in tool.
pub open spec fn is_builtin_def(d: ToolDef, i: int) -> bool {
    &&& d.name@ == builtin_name(i)
    &&& d.description@ == builtin_description(i)
    &&& d.parameters == spec_json_or_null(builtin_schema(i))
}

/// The built-in tools have distinct names.
pub proof fn lemma_builtin_names_distinct(i: int, j: int)
    requires
        0 <= i < BUILTIN_COUNT,
        0 <= j < BUILTIN_COUNT,
        i != j,
    ensures
        builtin_name(i) != builtin_name(j),
{
    reveal_strlit("read_file");
    reveal_strlit("write_file");
    reveal_strlit("search_knowledge");
    reveal_strlit("web_search");
    reveal_strlit("memory_search");
    reveal_strlit("memory_save");
    reveal_strlit("run_code");
    if builtin_name(i) == builtin_name(j) {
        assert(builtin_name(i).len() == builtin_name(j).len());
        assert(builtin_name(i)[1] == builtin_name(j)[1]);
        assert(builtin_name(i)[7] == builtin_name(j)[7]);
    }
}

/// The definition of the `i`-th built-in tool.
pub fn builtin_def(i: usize) -> (d: ToolDef)
    requires
        i < BUILTIN_COUNT,
    ensures
        is_builtin_def(d, i as int),
{
    if i == 0 {
        ToolDef {
            name: owned("read_file"),
            description: owned(
                "Read a file from the vault/knowledge base. Returns the file content as text.",
            ),
            parameters: json_from_str_or_null(
                "{\"type\":\"object\",\"properties\":{\"path\":{\"type\":\"string\",\"description\":\"File path relative to vault root (e.g. 'notes/meeting.md')\"}},\"required\":[\"path\"]}",
            ),
        }
    } else if i == 1 {
        ToolDef {
            name: owned("write_file"),
            description: owned(
                "Write content to a file in the vault. Creates parent directories if needed.",
            ),
            parameters: json_from_str_or_null(
                "{\"type\":\"object\",\"properties\":{\"path\":{\"type\":\"string\",\"description\":\"File path relative to vault root (e.g. 'notes/output.md')\"},\"content\":{\"type\":\"string\",\"description\":\"Content to write\"}},\"required\":[\"path\",\"content\"]}",
            ),
        }
    } else if i == 2 {
        ToolDef {
            name: owned("search_knowledge"),
            description: owned(
                "Search the knowledge base (indexed markdown files) for relevant documents.",
            ),
            parameters: json_from_str_or_null(
                "{\"type\":\"object\",\"properties\":{\"query\":{\"type\":\"string\",\"description\":\"Search keywords\"},\"limit\":{\"type\":\"integer\",\"description\":\"Max results (default 5)\",\"default\":5}},\"required\":[\"query\"]}",
            ),
        }
    } else if i == 3 {
        ToolDef {
            name: owned("web_search"),
            description: owned(
                "Search the web. Uses Chrome CDP first, falls back to DuckDuckGo/Google.",
            ),
            parameters: json_from_str_or_null(
                "{\"type\":\"object\",\"properties\":{\"query\":{\"type\":\"string\",\"description\":\"Search query\"}},\"required\":[\"query\"]}",
            ),
        }
    } else if i == 4 {
        ToolDef {
            name: owned("memory_search"),
            description: owned(
                "Search past conversation memories for relevant facts from history.",
            ),
            parameters: json_from_str_or_null(
                "{\"type\":\"object\",\"properties\":{\"query\":{\"type\":\"string\",\"description\":\"What to search for in memories\"}},\"required\":[\"query\"]}",
            ),
        }
    } else if i == 5 {
        ToolDef {
            name: owned("memory_save"),
            description: owned("Save an important fact to memory for future reference."),
            parameters: json_from_str_or_null(
                "{\"type\":\"object\",\"properties\":{\"content\":{\"type\":\"string\",\"description\":\"The fact/content to remember\"},\"keywords\":{\"type\":\"string\",\"description\":\"Comma-separated keywords for search\"}},\"required\":[\"content\",\"keywords\"]}",
            ),
        }
    } else {
        ToolDef {
            name: owned("run_code"),
            description: owned(
                "Execute a piece of code (Python/JavaScript/shell) and return the output.",
            ),
            parameters: json_from_str_or_null(
                "{\"type\":\"object\",\"properties\":{\"code\":{\"type\":\"string\",\"description\":\"The code to execute\"},\"language\":{\"type\":\"string\",\"description\":\"python / javascript / shell\",\"enum\":[\"python\",\"javascript\",\"shell\"],\"default\":\"python\"}},\"required\":[\"code\"]}",
            ),
        }
    }
}

/// `n` is the name of one of the first `k` built-in tools.
pub open spec fn among_builtins(n: Seq<char>, k: int) -> bool {
    exists|j: int| 0 <= j < k && builtin_name(j) == n
}

/// Registers the built-in tools, the `i`-th with `handlers[i]`, in order
/// (read_file, write_file, search_knowledge, web_search, memory_search,
/// memory_save, run_code), then marks the registry ready.  Every built-in
/// name then finds its definition and handler; every other name finds what
/// it found before; into an empty registry the tools go in that order.
pub fn init_builtin_tools<H>(registry: &mut ToolRegistry<H>, handlers: Vec<H>)
    requires
        old(registry).wf(),
        handlers@.len() == BUILTIN_COUNT,
    ensures
        final(registry).wf(),
        final(registry).ready(),
        forall|i: int|
            0 <= i < BUILTIN_COUNT ==> ((#[trigger] entry_of(final(registry).entries(), builtin_name(i)))
                matches Some(e) && is_builtin_def(e.def, i) && e.handler == handlers@[i]),
        forall|n: Seq<char>|
            !among_builtins(n, BUILTIN_COUNT as int) ==> #[trigger] entry_of(final(registry).entries(), n)
                == entry_of(old(registry).entries(), n),
        old(registry).entries().len() == 0 ==> {
            &&& final(registry).entries().len() == BUILTIN_COUNT
            &&& forall|i: int|
                0 <= i < BUILTIN_COUNT ==> is_builtin_def(
                    (#[trigger] final(registry).entries()[i]).def,
                    i,
                ) && final(registry).entries()[i].handler == handlers@[i]
        },
{
    let ghost hs = handlers@;
    let ghost start = registry.entries();
    let mut handlers = handlers;
    let mut i: usize = 0;
    while i < BUILTIN_COUNT
        invariant
            i <= BUILTIN_COUNT,
            registry.wf(),
            hs.len() == BUILTIN_COUNT,
            handlers@ == hs.subrange(i as int, BUILTIN_COUNT as int),
            forall|k: int|
                0 <= k < i ==> ((#[trigger] entry_of(registry.entries(), builtin_name(k))) matches Some(
                    e,
                ) && is_builtin_def(e.def, k) && e.handler == hs[k]),
            forall|n: Seq<char>|
                !among_builtins(n, i as int) ==> #[trigger] entry_of(registry.entries(), n) == entry_of(
                    start,
                    n,
                ),
            start.len() == 0 ==> {
                &&& registry.entries().len() == i
                &&& forall|k: int|
                    0 <= k < i ==> is_builtin_def((#[trigger] registry.entries()[k]).def, k)
                        && registry.entries()[k].handler == hs[k]
            },
        decreases BUILTIN_COUNT - i,
    {
        let def = builtin_def(i);
        let h = handlers.remove(0);
        let ghost before = registry.entries();
        let ghost e = ToolEntry { def, handler: h };
        assert(h == hs[i as int]);
        registry.register(def, h);
        proof {
            let after = registry.entries();
            assert(after == register_entry(before, e));
            law_registered_tool_is_found(before, e, builtin_name(i as int));
            assert forall|k: int| 0 <= k < i + 1 implies ((#[trigger] entry_of(after, builtin_name(k)))
                matches Some(x) && is_builtin_def(x.def, k) && x.handler == hs[k]) by {
                if k < i {
                    lemma_builtin_names_distinct(k, i as int);
                    law_registered_tool_is_found(before, e, builtin_name(k));
                }
            }
            assert forall|n: Seq<char>| !among_builtins(n, i + 1) implies #[trigger] entry_of(after, n)
                == entry_of(start, n) by {
                assert(n != builtin_name(i as int));
                law_registered_tool_is_found(before, e, n);
                assert(!among_builtins(n, i as int)) by {
                    if among_builtins(n, i as int) {
                        let j = choose|j: int| 0 <= j < i && builtin_name(j) == n;
                        assert(0 <= j < i + 1 && builtin_name(j) == n);
                    }
                }
            }
            if start.len() == 0 {
                assert(entry_index(before, builtin_name(i as int)) is None) by {
                    if exists|k: int|
                        0 <= k < before.len() && (#[trigger] before[k]).def.name@ == builtin_name(
                            i as int,
                        ) {
                        let k = choose|k: int|
                            0 <= k < before.len() && (#[trigger] before[k]).def.name@ == builtin_name(
                                i as int,
                            );
                        lemma_builtin_names_distinct(k, i as int);
                    }
                }
                assert(after == before.push(e));
            }
        }
        i = i + 1;
    }
    registry.mark_ready();
}

// ───────────────────────── the parameters of a call ─────────────────────────

/// The text of the parameter `key`, or the empty text when it is not a string.
pub open spec fn str_param(params: serde_json::Value, key: Seq<char>) -> Seq<char> {
    match spec_json_str_field(params, key) {
        Some(s) => s,
        None => ""@,
    }
}

/// The refusal of a call that lacks the parameter `key`.
pub open spec fn missing_param(key: Seq<char>) -> Seq<char> {
    "Missing '"@ + key + "' parameter"@
}

/// The text of the parameter `key`, or the empty text.
pub fn param_or_empty(params: &serde_json::Value, key: &str) -> (r: String)
    ensures
        r@ == str_param(*params, key@),
{
    proof {
        reveal_strlit("");
    }
    match json_str_field(params, key) {
        Some(s) => s,
        None => String::new(),
    }
}

/// The text of the parameter `key`, which the call must give and not empty.
pub fn required_param(params: &serde_json::Value, key: &str) -> (r: Result<String, String>)
    ensures
        r is Ok <==> str_param(*params, key@).len() > 0,
        r matches Ok(s) ==> s@ == str_param(*params, key@),
        r matches Err(e) ==> e@ == missing_param(key@),
{
    let v = param_or_empty(params, key);
    if v.as_str().is_empty() {
        let mut m: Vec<char> = Vec::new();
        push_str(&mut m, "Missing '");
        push_str(&mut m, key);
        push_str(&mut m, "' parameter");
        assert(m@ =~= missing_param(key@));
        Err(string_from_chars(m.as_slice()))
    } else {
        Ok(v)
    }
}

/// The `read_file` call's path, which must be given.
pub fn read_file_args(params: &serde_json::Value) -> (r: Result<String, String>)
    ensures
        r is Ok <==> str_param(*params, "path"@).len() > 0,
        r matches Ok(p) ==> p@ == str_param(*params, "path"@),
        r matches Err(e) ==> e@ == missing_param("path"@),
{
    required_param(params, "path")
}

/// The `write_file` call's path, which must be given, and content, empty
/// when not given.
pub fn write_file_args(params: &serde_json::Value) -> (r: Result<(String, String), String>)
    ensures
        r is Ok <==> str_param(*params, "path"@).len() > 0,
        r matches Ok((p, c)) ==> p@ == str_param(*params, "path"@) && c@ == str_param(
            *params,
            "content"@,
        ),
        r matches Err(e) ==> e@ == missing_param("path"@),
{
    let content = param_or_empty(params, "content");
    match required_param(params, "path") {
        Ok(p) => Ok((p, content)),
        Err(e) => Err(e),
    }
}

/// The `search_knowledge` call's query, which must be given, and the most
/// results it wants (5 when not given).
pub fn search_knowledge_args(params: &serde_json::Value) -> (r: Result<(String, usize), String>)
    ensures
        r is Ok <==> str_param(*params, "query"@).len() > 0,
        r matches Ok((q, limit)) ==> q@ == str_param(*params, "query"@) && limit == (match spec_json_u64_field(*params, "limit"@) {
            Some(n) => n as usize,
            None => 5usize,
        }),
        r matches Err(e) ==> e@ == missing_param("query"@),
{
    let limit: usize = match json_u64_field(params, "limit") {
        Some(n) => n as usize,
        None => 5,
    };
    match required_param(params, "query") {
        Ok(q) => Ok((q, limit)),
        Err(e) => Err(e),
    }
}

/// The query of a `web_search` or `memory_search` call, which must be given.
pub fn query_args(params: &serde_json::Value) -> (r: Result<String, String>)
    ensures
        r is Ok <==> str_param(*params, "query"@).len() > 0,
        r matches Ok(q) ==> q@ == str_param(*params, "query"@),
        r matches Err(e) ==> e@ == missing_param("query"@),
{
    required_param(params, "query")
}

/// The `memory_save` call's content, which must be given, and keywords,
/// empty when not given.
pub fn memory_save_args(params: &serde_json::Value) -> (r: Result<(String, String), String>)
    ensures
        r is Ok <==> str_param(*params, "content"@).len() > 0,
        r matches Ok((c, k)) ==> c@ == str_param(*params, "content"@) && k@ == str_param(
            *params,
            "keywords"@,
        ),
        r matches Err(e) ==> e@ == missing_param("content"@),
{
    let keywords = param_or_empty(params, "keywords");
    match required_param(params, "content") {
        Ok(c) => Ok((c, keywords)),
        Err(e) => Err(e),
    }
}

/// How a piece of code is run: by which program, from a file with which
/// extension.
#[derive(Debug)]
pub struct RunCodePlan {
    pub code: String,
    pub language: String,
    pub interpreter: String,
    pub extension: String,
}

/// The program and file extension for a language, if it is supported.
pub open spec fn interpreter_of(language: Seq<char>) -> Option<(Seq<char>, Seq<char>)> {
    if language == "python"@ {
        Some(("python"@, ".py"@))
    } else if language == "javascript"@ {
        Some(("node"@, ".js"@))
    } else if language == "shell"@ {
        Some(("cmd.exe"@, ".bat"@))
    } else {
        None
    }
}

/// The language a `run_code` call asks for: `python` when not given.
pub open spec fn language_param(params: serde_json::Value) -> Seq<char> {
    match spec_json_str_field(params, "language"@) {
        Some(s) => s,
        None => "python"@,
    }
}

/// The refusal of a language that is not supported.
pub open spec fn unsupported_language(language: Seq<char>) -> Seq<char> {
    "Unsupported language: "@ + language
}

/// The `run_code` call's code, which must be given, and how to run it; a
/// language other than python, javascript and shell is refused.
pub fn run_code_args(params: &serde_json::Value) -> (r: Result<RunCodePlan, String>)
    ensures
        r is Ok <==> (str_param(*params, "code"@).len() > 0 && interpreter_of(language_param(*params)) is Some),
        str_param(*params, "code"@).len() == 0 ==> (r matches Err(e) && e@ == missing_param("code"@)),
        str_param(*params, "code"@).len() > 0 && interpreter_of(language_param(*params)) is None ==> (r matches Err(e)
            && e@ == unsupported_language(language_param(*params))),
        r matches Ok(p) ==> {
            &&& p.code@ == str_param(*params, "code"@)
            &&& p.language@ == language_param(*params)
            &&& interpreter_of(p.language@) == Some((p.interpreter@, p.extension@))
        },
{
    let language: String = match json_str_field(params, "language") {
        Some(s) => s,
        None => owned("python"),
    };
    let code = match required_param(params, "code") {
        Ok(c) => c,
        Err(e) => {
            return Err(e);
        },
    };
    proof {
        reveal_strlit("python");
        reveal_strlit("javascript");
        reveal_strlit("shell");
    }
    let (interpreter, extension) = if str_eq(language.as_str(), "python") {
        (owned("python"), owned(".py"))
    } else if str_eq(language.as_str(), "javascript") {
        (owned("node"), owned(".js"))
    } else if str_eq(language.as_str(), "shell") {
        (owned("cmd.exe"), owned(".bat"))
    } else {
        let mut m: Vec<char> = Vec::new();
        push_str(&mut m, "Unsupported language: ");
        push_str(&mut m, language.as_str());
        assert(m@ =~= unsupported_language(language@));
        return Err(string_from_chars(m.as_slice()));
    };
    Ok(RunCodePlan { code, language, interpreter, extension })
}

/// The arguments the interpreter is started with to run `file`: a shell
/// script goes through `/c`.
pub fn run_code_command_args(plan: &RunCodePlan, file: &str) -> (r: Vec<String>)
    ensures
        plan.language@ == "shell"@ ==> r@.len() == 2 && r@[0]@ == "/c"@ && r@[1]@ == file@,
        plan.language@ != "shell"@ ==> r@.len() == 1 && r@[0]@ == file@,
{
    let mut out: Vec<String> = Vec::new();
    if str_eq(plan.language.as_str(), "shell") {
        out.push(owned("/c"));
    }
    out.push(owned(file));
    out
}

/// The refusal of a path the guard does not admit.
pub open spec fn path_refusal(reason: Seq<char>) -> Seq<char> {
    "Path not allowed: "@ + reason
}

/// The failed result for a path the guard refused with `reason`.
pub fn path_refused(reason: &str) -> (r: String)
    ensures
        r@ == path_refusal(reason@),
{
    let mut m: Vec<char> = Vec::new();
    push_str(&mut m, "Path not allowed: ");
    push_str(&mut m, reason);
    assert(m@ =~= path_refusal(reason@));
    string_from_chars(m.as_slice())
}

/// The first `limit` characters of a found text, as a tool result shows it
/// (500 for knowledge documents, 300 for memories).
pub fn snippet(text: &str, limit: usize) -> (r: String)
    ensures
        r@ == (if limit <= text@.len() { text@.take(limit as int) } else { text@ }),
{
    let c = chars_of(text);
    let t = take_chars(c.as_slice(), limit);
    proof {
        if limit > text@.len() {
            assert(text@.take(text@.len() as int) =~= text@);
        }
    }
    string_from_chars(t.as_slice())
}

/// The refusal when no web search backend answered.
pub open spec fn web_search_failure(reason: Seq<char>) -> Seq<char> {
    "Web search failed: "@ + reason
}

/// The failed result of a web search, for `reason`.
pub fn web_search_failed(reason: &str) -> (r: String)
    ensures
        r@ == web_search_failure(reason@),
{
    let mut m: Vec<char> = Vec::new();
    push_str(&mut m, "Web search failed: ");
    push_str(&mut m, reason);
    assert(m@ =~= web_search_failure(reason@));
    string_from_chars(m.as_slice())
}

// ───────────────────────── running a batch of calls ─────────────────────────

/// `r` is what the registry answers to `call`: the handler's answer when the
/// tool is registered, else the unknown-tool failure.
pub open spec fn answered<H: Fn(serde_json::Value) -> ToolResult>(
    entries: Seq<ToolEntry<H>>,
    call: ToolCall,
    r: ToolResult,
) -> bool {
    match entry_index(entries, call.name@) {
        Some(i) => call_ensures(entries[i].handler, (call.arguments,), r),
        None => !r.success && r.value == spec_json_or_null("null"@) && (r.error matches Some(e)
            && e@ == crate::tool_layer::unknown_tool_message(call.name@)),
    }
}

/// The registry can run `call`.
pub open spec fn runnable<H: Fn(serde_json::Value) -> ToolResult>(
    entries: Seq<ToolEntry<H>>,
    call: ToolCall,
) -> bool {
    match entry_index(entries, call.name@) {
        Some(i) => call_requires(entries[i].handler, (call.arguments,)),
        None => true,
    }
}

/// Runs each call in turn and gives, for each, the message that carries its
/// result back to the model: id `call_<index>`, the tool's name, and the
/// JSON text of the value the tool returned.
pub fn execute_tool_calls<H: Fn(serde_json::Value) -> ToolResult>(
    registry: &ToolRegistry<H>,
    calls: &Vec<ToolCall>,
) -> (r: Vec<WireMessage>)
    requires
        registry.wf(),
        forall|i: int| 0 <= i < calls@.len() ==> runnable(registry.entries(), #[trigger] calls@[i]),
    ensures
        r@.len() == calls@.len(),
        forall|i: int|
            0 <= i < calls@.len() ==> ((#[trigger] r@[i]) matches WireMessage::ToolOutput {
                tool_call_id: id,
                name,
                content,
            } && id@ == tool_call_id(calls@[i].index) && name == calls@[i].name && exists|
                res: ToolResult,
            |
                answered(registry.entries(), calls@[i], res) && content@ == spec_json_text(res.value)),
{
    let mut out: Vec<WireMessage> = Vec::new();
    let n = calls.len();
    let mut i: usize = 0;
    while i < n
        invariant
            n == calls@.len(),
            i <= n,
            registry.wf(),
            forall|k: int| 0 <= k < calls@.len() ==> runnable(registry.entries(), #[trigger] calls@[k]),
            out@.len() == i,
            forall|k: int|
                0 <= k < i ==> ((#[trigger] out@[k]) matches WireMessage::ToolOutput {
                    tool_call_id: id,
                    name,
                    content,
                } && id@ == tool_call_id(calls@[k].index) && name == calls@[k].name
                    && exists|res: ToolResult|
                    answered(registry.entries(), calls@[k], res) && content@ == spec_json_text(
                        res.value,
                    )),
        decreases n - i,
    {
        let call = &calls[i];
        assert(runnable(registry.entries(), calls@[i as int]));
        let res = registry.execute(call.name.as_str(), crate::json::json_clone(&call.arguments));
        assert(answered(registry.entries(), calls@[i as int], res));
        let text = json_to_text(&res.value);
        let msg = crate::chat::tool_output(call, text);
        out.push(msg);
        i = i + 1;
    }
    out
}

} // verus!
