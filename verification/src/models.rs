//! The records the desktop shell exchanges with its front end: chat messages,
//! tool configurations, saved sessions and search results.
use vstd::prelude::*;
use crate::text::owned;

verus! {

/// Copies a list of strings.
pub fn clone_strings(v: &Vec<String>) -> (r: Vec<String>)
    ensures
        r@ == v@,
{
    let mut out: Vec<String> = Vec::new();
    let n = v.len();
    let mut i: usize = 0;
    while i < n
        invariant
            n == v@.len(),
            i <= n,
            out@ == v@.take(i as int),
        decreases n - i,
    {
        out.push(v[i].clone());
        assert(v@.take(i + 1) =~= v@.take(i as int).push(v@[i as int]));
        i = i + 1;
    }
    assert(v@.take(n as int) =~= v@);
    out
}

/// One message of a conversation.
#[allow(non_snake_case)]
#[derive(Debug)]
pub struct ChatMsg {
    pub role: String,
    pub content: String,
    pub toolId: Option<String>,
}

impl Clone for ChatMsg {
    fn clone(&self) -> (r: Self)
        ensures
            r == *self,
    {
        ChatMsg {
            role: self.role.clone(),
            content: self.content.clone(),
            toolId: match &self.toolId {
                Some(t) => Some(t.clone()),
                None => None,
            },
        }
    }
}

/// A completed answer of a model.
#[derive(Debug)]
pub struct AiResponse {
    pub content: String,
    pub tokens: i32,
}

/// A configured tool: an API model or a command-line program.
#[derive(Debug)]
pub struct ToolConfig {
    pub id: String,
    pub name: String,
    pub icon: String,
    pub tool_type: String,
    pub enabled: bool,
    pub provider: String,
    pub api_base: String,
    pub model_name: String,
    pub api_key: String,
    pub command: String,
    pub args: Vec<String>,
    pub system_prompt: String,
}

/// Two tool configurations hold the same values.
pub open spec fn same_tool_config(a: ToolConfig, b: ToolConfig) -> bool {
    &&& a.id == b.id
    &&& a.name == b.name
    &&& a.icon == b.icon
    &&& a.tool_type == b.tool_type
    &&& a.enabled == b.enabled
    &&& a.provider == b.provider
    &&& a.api_base == b.api_base
    &&& a.model_name == b.model_name
    &&& a.api_key == b.api_key
    &&& a.command == b.command
    &&& a.args@ == b.args@
    &&& a.system_prompt == b.system_prompt
}

impl Clone for ToolConfig {
    fn clone(&self) -> (r: Self)
        ensures
            same_tool_config(r, *self),
    {
        ToolConfig {
            id: self.id.clone(),
            name: self.name.clone(),
            icon: self.icon.clone(),
            tool_type: self.tool_type.clone(),
            enabled: self.enabled,
            provider: self.provider.clone(),
            api_base: self.api_base.clone(),
            model_name: self.model_name.clone(),
            api_key: self.api_key.clone(),
            command: self.command.clone(),
            args: clone_strings(&self.args),
            system_prompt: self.system_prompt.clone(),
        }
    }
}

/// A saved conversation.
#[derive(Debug)]
pub struct Session {
    pub id: String,
    pub tool_id: String,
    pub title: String,
    pub messages: Vec<ChatMsg>,
    pub created: String,
    pub updated: String,
}

/// One hit of a memory search.
#[derive(Debug)]
pub struct SearchResult {
    pub content: String,
    pub source: String,
    pub timestamp: String,
}

/// One entry of a vault directory listing.
#[derive(Debug)]
pub struct ObsidianFile {
    pub path: String,
    pub is_dir: bool,
}

impl ToolConfig {
    /// A command-line tool saved from the terminal: enabled, of type
    /// `process`, with the given id, name, icon, command and arguments and
    /// every other field empty.
    pub fn process_tool(id: String, name: String, icon: String, command: String, args: Vec<String>) -> (r: Self)
        ensures
            r.id == id,
            r.name == name,
            r.icon == icon,
            r.tool_type@ == "process"@,
            r.enabled,
            r.provider@ == Seq::<char>::empty(),
            r.api_base@ == Seq::<char>::empty(),
            r.model_name@ == Seq::<char>::empty(),
            r.api_key@ == Seq::<char>::empty(),
            r.command == command,
            r.args == args,
            r.system_prompt@ == Seq::<char>::empty(),
    {
        ToolConfig {
            id,
            name,
            icon,
            tool_type: owned("process"),
            enabled: true,
            provider: String::new(),
            api_base: String::new(),
            model_name: String::new(),
            api_key: String::new(),
            command,
            args,
            system_prompt: String::new(),
        }
    }
}

} // verus!
