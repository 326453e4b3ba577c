//! The vault (the user's notes directory): where it is, how its entries are
//! shown, and the access report of a path.
use vstd::prelude::*;
use crate::sandbox::{check_spec, result_view, PathGuard, PermissionLevel};
use crate::text::{chars_of, owned, push_str, replace_char, replace_char_exec, str_eq, string_from_chars};

verus! {

/// The vault used when neither saved settings nor the environment name one.
pub open spec fn default_vault_path() -> Seq<char> {
    "D:\\我的工作台"@
}

/// The vault: the path of the hub settings the user saved, when there is a
/// non-empty one; else the path named by the `AI_HUB_VAULT` variable, when set;
/// else the default.
pub open spec fn vault_choice(saved: Option<Seq<char>>, env: Option<Seq<char>>) -> Seq<char> {
    match saved {
        Some(c) if c.len() > 0 => c,
        _ => match env {
            Some(e) => e,
            None => default_vault_path(),
        },
    }
}

/// Picks the vault path: `saved` is the vault path of hub settings the user
/// saved (none when no settings were saved, or they cannot be read now), and
/// `env` the value of the `AI_HUB_VAULT` variable when set.
pub fn resolve_vault(saved: Option<String>, env: Option<String>) -> (r: String)
    ensures
        r@ == vault_choice(crate::tool_layer::opt_view(saved), crate::tool_layer::opt_view(env)),
{
    match saved {
        Some(c) => {
            if !c.as_str().is_empty() {
                return c;
            }
        },
        None => {},
    }
    match env {
        Some(e) => e,
        None => owned("D:\\我的工作台"),
    }
}

/// When no settings were saved, the `AI_HUB_VAULT` variable names the vault
/// whenever it is set; the built-in default is only its default.
pub proof fn law_vault_variable_wins_unless_saved(env: Seq<char>)
    ensures
        vault_choice(None, Some(env)) == env,
        vault_choice(None, None) == default_vault_path(),
{
}

/// The permission a level name asks for: `full` is full access, anything
/// else restricted.
pub fn permission_for(level: &str) -> (r: PermissionLevel)
    ensures
        level@ == "full"@ ==> r == PermissionLevel::FullAccess,
        level@ != "full"@ ==> r == PermissionLevel::Restricted,
{
    if str_eq(level, "full") {
        PermissionLevel::FullAccess
    } else {
        PermissionLevel::Restricted
    }
}

/// The access report of a path: whether it is allowed, and the refusal's
/// message (empty when allowed).
pub fn path_access(guard: &PathGuard, path: &str, level: &str) -> (r: (bool, String))
    ensures
        ({
            let perm = if level@ == "full"@ { PermissionLevel::FullAccess } else { PermissionLevel::Restricted };
            match check_spec(guard.allowed(), guard.denied(), path@, perm) {
                Ok(()) => r.0 && r.1@ == Seq::<char>::empty(),
                Err(m) => !r.0 && r.1@ == m,
            }
        }),
{
    let perm = permission_for(level);
    match guard.check(path, &perm) {
        Ok(()) => (true, String::new()),
        Err(m) => (false, m),
    }
}

/// How a path below the vault is shown: with `/` between its parts.
pub fn display_path(relative: &str) -> (r: String)
    ensures
        r@ == replace_char(relative@, '\\', '/'),
{
    let c = chars_of(relative);
    let d = replace_char_exec(c.as_slice(), '\\', '/');
    string_from_chars(d.as_slice())
}

/// The id under which a vault note with file stem `stem` is looked up in the
/// knowledge base: `kb_<stem>`.
pub fn vault_doc_id(stem: &str) -> (r: String)
    ensures
        r@ == "kb_"@ + stem@,
{
    let mut m: Vec<char> = Vec::new();
    push_str(&mut m, "kb_");
    push_str(&mut m, stem);
    string_from_chars(m.as_slice())
}

/// The id of a tool saved from the terminal at `secs` seconds past the epoch:
/// `tool_<secs>`.
pub fn terminal_tool_id(secs: u64) -> (r: String)
    ensures
        r@ == "tool_"@ + crate::text::decimal(secs as nat),
{
    let mut m: Vec<char> = Vec::new();
    push_str(&mut m, "tool_");
    crate::text::push_decimal(secs, &mut m);
    string_from_chars(m.as_slice())
}

} // verus!
