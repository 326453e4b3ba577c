//! Terminal chat mode: what a typed line asks for.
use vstd::prelude::*;
use crate::text::{seq_starts_with, str_eq, str_starts_with, str_trim, trim};

verus! {

/// What a line typed in terminal mode asks for.
#[derive(Debug)]
pub enum CliAction {
    /// An empty line: ask again.
    Skip,
    /// `/quit` or `/exit`: leave.
    Quit,
    /// Another `/` command: not known.
    Unknown(String),
    /// A message for the model.
    Chat(String),
}

/// Reads a typed line (trimmed first).
pub fn cli_action(input: &str) -> (r: CliAction)
    ensures
        trim(input@).len() == 0 ==> r is Skip,
        trim(input@).len() > 0 && (trim(input@) == "/quit"@ || trim(input@) == "/exit"@) ==> r is Quit,
        trim(input@).len() > 0 && trim(input@) != "/quit"@ && trim(input@) != "/exit"@ && seq_starts_with(trim(input@), "/"@)
            ==> (r matches CliAction::Unknown(m) && m@ == trim(input@)),
        trim(input@).len() > 0 && !seq_starts_with(trim(input@), "/"@) ==> (r matches CliAction::Chat(m) && m@ == trim(input@)),
{
    let msg = str_trim(input);
    if msg.as_str().is_empty() {
        return CliAction::Skip;
    }
    if str_eq(msg.as_str(), "/quit") || str_eq(msg.as_str(), "/exit") {
        proof {
            reveal_strlit("/");
            reveal_strlit("/quit");
            reveal_strlit("/exit");
            assert(msg@.subrange(0, 1) =~= "/"@);
        }
        return CliAction::Quit;
    }
    if str_starts_with(msg.as_str(), "/") {
        proof {
            reveal_strlit("/");
            reveal_strlit("/quit");
        }
        return CliAction::Unknown(msg);
    }
    proof {
        reveal_strlit("/");
        reveal_strlit("/quit");
        reveal_strlit("/exit");
        if msg@ == "/quit"@ || msg@ == "/exit"@ {
            assert(msg@.subrange(0, 1) =~= "/"@);
        }
    }
    CliAction::Chat(msg)
}

/// A trimmed line that is a message for the model: not empty and not a `/`
/// command.
pub open spec fn chat_line(t: Seq<char>) -> bool {
    t.len() > 0 && !seq_starts_with(t, "/"@)
}

/// The API base used when `DEEPSEEK_API_BASE` is not set.
pub open spec fn default_api_base() -> Seq<char> {
    "https://api.deepseek.com"@
}

/// The request a typed line makes in terminal mode, given the API key and
/// base address from the environment: none when the key is missing or empty
/// or the line is not a message; otherwise the chat-completions address under
/// the base (`https://api.deepseek.com` by default) and the trimmed line.
pub fn cli_request(key: Option<String>, base: Option<String>, line: &str) -> (r: Option<(String, String)>)
    ensures
        r is Some <==> (key matches Some(k) && k@.len() > 0) && chat_line(trim(line@)),
        r matches Some((url, msg)) ==> {
            &&& url@ == match base {
                Some(b) => b@,
                None => default_api_base(),
            } + "/v1/chat/completions"@
            &&& msg@ == trim(line@)
        },
{
    let has_key = match &key {
        Some(k) => !k.as_str().is_empty(),
        None => false,
    };
    match cli_action(line) {
        CliAction::Chat(m) => {
            proof {
                reveal_strlit("/quit");
                reveal_strlit("/exit");
                reveal_strlit("/");
            }
            if !has_key {
                return None;
            }
            let b = match base {
                Some(b) => b,
                None => crate::text::owned("https://api.deepseek.com"),
            };
            Some((crate::chat::completions_url(b.as_str()), m))
        },
        _ => {
            proof {
                reveal_strlit("/quit");
                reveal_strlit("/exit");
                reveal_strlit("/");
                if trim(line@) == "/quit"@ || trim(line@) == "/exit"@ {
                    assert(trim(line@).subrange(0, 1) =~= "/"@);
                }
            }
            None
        },
    }
}

} // verus!
