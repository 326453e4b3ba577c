//! Learning a skill from a conversation: the prompt that asks a model to
//! extract one, and the bundle made of what the model answered.
use vstd::prelude::*;
use crate::json::{
    json_from_str_or_null, json_reply_content, json_str_field, spec_json_or_null,
    spec_json_str_field, spec_reply_content,
};
use crate::models::{ChatMsg, ToolConfig};
use crate::sessions::{conversation, conversation_text};
use crate::skill_bundle::{InstalledSkill, SkillBundle, SkillItem};
use crate::text::{append_chars, byte_prefix, chars_of, cut_at_byte, is_boundary, owned, push_str, str_eq, string_from_chars, utf8_len};

verus! {

/// How many bytes of the conversation go into the prompt.
pub const LEARN_TEXT_BYTES: usize = 3000;

/// The prompt that asks a model to extract a skill from a conversation.
pub open spec fn learn_prompt_spec(messages: Seq<ChatMsg>) -> Seq<char> {
    "Extract a reusable skill as JSON (name,description,prompt).\nConversation:\n"@ + byte_prefix(
        conversation_text(messages),
        LEARN_TEXT_BYTES as nat,
    ) + "\nJSON:"@
}

/// Builds the skill-extraction prompt from the first 3000 bytes of the
/// conversation text.
pub fn learn_prompt(messages: &Vec<ChatMsg>) -> (r: String)
    requires
        utf8_len(conversation_text(messages@)) > LEARN_TEXT_BYTES ==> is_boundary(
            conversation_text(messages@),
            LEARN_TEXT_BYTES as int,
        ),
    ensures
        r@ == learn_prompt_spec(messages@),
{
    let text = conversation(messages);
    let tc = chars_of(text.as_str());
    let cut = cut_at_byte(tc.as_slice(), LEARN_TEXT_BYTES);
    let mut m: Vec<char> = Vec::new();
    push_str(&mut m, "Extract a reusable skill as JSON (name,description,prompt).\nConversation:\n");
    append_chars(&mut m, cut.as_slice());
    push_str(&mut m, "\nJSON:");
    assert(m@ =~= learn_prompt_spec(messages@));
    string_from_chars(m.as_slice())
}

/// The position of the first API tool.
pub open spec fn first_api_tool(tools: Seq<ToolConfig>) -> Option<int> {
    if exists|i: int| 0 <= i < tools.len() && (#[trigger] tools[i]).tool_type@ == "api"@ {
        Some(
            choose|i: int|
                0 <= i < tools.len() && (#[trigger] tools[i]).tool_type@ == "api"@ && forall|k: int|
                    0 <= k < i ==> tools[k].tool_type@ != "api"@,
        )
    } else {
        None
    }
}

/// The first API tool, which learning sends its prompt to.
pub fn find_api_tool(tools: &Vec<ToolConfig>) -> (r: Result<usize, String>)
    ensures
        match first_api_tool(tools@) {
            Some(i) => r == Ok::<usize, String>(i as usize) && i < tools@.len(),
            None => r matches Err(e) && e@ == "no API tool"@,
        },
{
    let n = tools.len();
    let mut i: usize = 0;
    while i < n
        invariant
            n == tools@.len(),
            i <= n,
            forall|k: int| 0 <= k < i ==> (#[trigger] tools@[k]).tool_type@ != "api"@,
        decreases n - i,
    {
        if str_eq(tools[i].tool_type.as_str(), "api") {
            proof {
                let j = choose|j: int|
                    0 <= j < tools@.len() && (#[trigger] tools@[j]).tool_type@ == "api"@ && forall|k: int|
                        0 <= k < j ==> tools@[k].tool_type@ != "api"@;
                assert(tools@[i as int].tool_type@ == "api"@);
                if j < i {
                    assert(tools@[j].tool_type@ != "api"@);
                } else if j > i {
                    assert(tools@[i as int].tool_type@ != "api"@);
                }
            }
            return Ok(i);
        }
        i = i + 1;
    }
    Err(owned("no API tool"))
}

/// The JSON the model answered with: the reply's text parsed (`{}` when the
/// reply has no text; null when the text is not JSON).
pub open spec fn answer_json(reply: serde_json::Value) -> serde_json::Value {
    spec_json_or_null(
        match spec_reply_content(reply) {
            Some(c) => c,
            None => "{}"@,
        },
    )
}

/// The text under `key` of the model's answer, or `default`.
pub open spec fn answer_field(reply: serde_json::Value, key: Seq<char>, default: Seq<char>) -> Seq<char> {
    match spec_json_str_field(answer_json(reply), key) {
        Some(s) => s,
        None => default,
    }
}

/// The skill the model described: its name (`Learned` when not given),
/// description (`extracted`) and prompt (empty).
pub fn learned_fields(reply: &serde_json::Value) -> (r: (String, String, String))
    ensures
        r.0@ == answer_field(*reply, "name"@, "Learned"@),
        r.1@ == answer_field(*reply, "description"@, "extracted"@),
        r.2@ == answer_field(*reply, "prompt"@, ""@),
{
    let text = match json_reply_content(reply) {
        Some(c) => c,
        None => owned("{}"),
    };
    let v = json_from_str_or_null(text.as_str());
    let name = match json_str_field(&v, "name") {
        Some(s) => s,
        None => owned("Learned"),
    };
    let desc = match json_str_field(&v, "description") {
        Some(s) => s,
        None => owned("extracted"),
    };
    let prompt = match json_str_field(&v, "prompt") {
        Some(s) => s,
        None => owned(""),
    };
    (name, desc, prompt)
}

/// The bundle a learned skill is installed as: `Learned: <name>`, version
/// 1.0.0 by AI Hub, holding the one skill.
pub fn learned_bundle(name: &str, description: &str, prompt: &str) -> (b: SkillBundle)
    ensures
        b.name@ == "Learned: "@ + name@,
        b.version@ == "1.0.0"@,
        b.description@ == description@,
        b.author matches Some(a) && a@ == "AI Hub"@,
        b.skills@.len() == 1,
        b.skills@[0].name@ == name@,
        b.skills@[0].description@ == description@,
        b.skills@[0].prompt@ == prompt@,
        b.skills@[0].tools is None,
        b.skills@[0].steps is None,
{
    let mut n: Vec<char> = Vec::new();
    push_str(&mut n, "Learned: ");
    push_str(&mut n, name);
    let mut skills: Vec<SkillItem> = Vec::new();
    skills.push(SkillItem {
        name: owned(name),
        description: owned(description),
        prompt: owned(prompt),
        tools: None,
        steps: None,
    });
    SkillBundle {
        name: string_from_chars(n.as_slice()),
        version: owned("1.0.0"),
        description: owned(description),
        author: Some(owned("AI Hub")),
        skills,
    }
}

/// The skill learning answers with: the first installed, or, when none
/// was, one made of the learned fields.
pub fn learned_skill(installed: Vec<InstalledSkill>, name: &str, description: &str, prompt: &str) -> (r: InstalledSkill)
    ensures
        installed@.len() > 0 ==> r == installed@[0],
        installed@.len() == 0 ==> {
            &&& r.id@ == "l"@
            &&& r.bundle_name@ == "A"@
            &&& r.name@ == name@
            &&& r.description@ == description@
            &&& r.prompt@ == prompt@
            &&& r.version@ == "1.0.0"@
            &&& r.enabled
        },
{
    let mut installed = installed;
    if installed.len() > 0 {
        installed.remove(0)
    } else {
        InstalledSkill {
            id: owned("l"),
            bundle_name: owned("A"),
            name: owned(name),
            description: owned(description),
            prompt: owned(prompt),
            version: owned("1.0.0"),
            enabled: true,
        }
    }
}

} // verus!
