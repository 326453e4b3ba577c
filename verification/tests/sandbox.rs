use ai_tools_hub::sandbox::{PathGuard, PermissionLevel, ToolPermissions};
use ai_tools_hub::vault::{display_path, path_access, permission_for, resolve_vault, terminal_tool_id, vault_doc_id};

fn guard() -> PathGuard {
    PathGuard::new(vec!["D:\\vault".to_string()])
}

#[test]
fn full_access_admits_any_path() {
    let g = guard();
    assert_eq!(g.check("C:\\Windows\\System32\\cmd.exe", &PermissionLevel::FullAccess), Ok(()));
    assert_eq!(g.check("anything", &PermissionLevel::FullAccess), Ok(()));
}

#[test]
fn denied_pattern_refuses_ignoring_case() {
    let g = guard();
    assert_eq!(
        g.check("c:\\windows\\system32\\drivers", &PermissionLevel::Restricted),
        Err("Path denied: contains '\\Windows\\System32'".to_string())
    );
    assert_eq!(
        g.check_read("C:\\Users\\me\\.ssh\\id_rsa"),
        Err("Path denied: contains '\\.ssh'".to_string())
    );
}

#[test]
fn allowed_prefix_admits_with_either_slash() {
    let g = guard();
    assert_eq!(g.check_read("D:\\vault\\notes\\a.md"), Ok(()));
    assert_eq!(g.check_read("D:/vault/notes/a.md"), Ok(()));
    assert_eq!(g.check_read("d:/VAULT/x"), Ok(()));
}

#[test]
fn outside_path_is_refused_with_the_allowed_list() {
    let g = guard();
    assert_eq!(
        g.check_read("E:\\other\\file.txt"),
        Err("Path 'E:\\other\\file.txt' is outside allowed directories. Allowed: [\"D:\\\\vault\"]".to_string())
    );
}

#[test]
fn slash_patterns_never_match_because_paths_are_normalized() {
    // Paths are compared with `/` turned into `\`, so the `/etc/...` patterns
    // never match; such a path is refused only for being outside the vault.
    let g = guard();
    let r = g.check_read("/etc/passwd");
    assert!(r.unwrap_err().starts_with("Path '/etc/passwd' is outside allowed directories"));
    let open = PathGuard::new(vec!["/".to_string()]);
    assert_eq!(open.check_read("/etc/passwd"), Ok(()));
}

#[test]
fn add_allowed_adds_once() {
    let mut g = PathGuard::new(vec![]);
    assert!(g.check_read("D:\\vault\\a").is_err());
    g.add_allowed("D:\\vault".to_string());
    g.add_allowed("D:\\vault".to_string());
    assert_eq!(g.allowed_dirs_debug(), vec!["D:\\vault".to_string()]);
    assert_eq!(g.check_read("D:\\vault\\a"), Ok(()));
}

#[test]
fn standard_guard_refuses_program_files_x86() {
    let g = PathGuard::standard(vec!["C:\\".to_string()]);
    assert_eq!(
        g.check_read("C:\\Program Files (x86)\\app"),
        Err("Path denied: contains '\\Program Files'".to_string())
    );
    assert_eq!(g.check_read("C:\\Users\\me\\doc.txt"), Ok(()));
}

#[test]
fn permission_defaults() {
    assert_eq!(PermissionLevel::default(), PermissionLevel::Restricted);
    let p = ToolPermissions::default();
    assert_eq!(p.level, PermissionLevel::Restricted);
    assert!(p.allowed_paths.is_none());
}

#[test]
fn level_names() {
    assert_eq!(permission_for("full"), PermissionLevel::FullAccess);
    assert_eq!(permission_for("restricted"), PermissionLevel::Restricted);
    assert_eq!(permission_for("FULL"), PermissionLevel::Restricted);
}

#[test]
fn path_access_reports() {
    let g = guard();
    assert_eq!(path_access(&g, "D:\\vault\\a.md", "restricted"), (true, String::new()));
    let (ok, msg) = path_access(&g, "C:\\Windows\\System32", "restricted");
    assert!(!ok);
    assert_eq!(msg, "Path denied: contains '\\Windows\\System32'");
    assert_eq!(path_access(&g, "C:\\Windows\\System32", "full"), (true, String::new()));
}

#[test]
fn vault_resolution_order() {
    assert_eq!(resolve_vault(Some("E:\\notes".into()), Some("F:\\env".into())), "E:\\notes");
    assert_eq!(resolve_vault(Some(String::new()), Some("F:\\env".into())), "F:\\env");
    assert_eq!(resolve_vault(None, Some("F:\\env".into())), "F:\\env");
    assert_eq!(resolve_vault(None, None), "D:\\我的工作台");
}

#[test]
fn vault_paths_and_ids() {
    assert_eq!(display_path("notes\\2024\\a.md"), "notes/2024/a.md");
    assert_eq!(vault_doc_id("meeting"), "kb_meeting");
    assert_eq!(terminal_tool_id(1700000000), "tool_1700000000");
}

#[test]
fn adding_a_directory_keeps_earlier_access() {
    let mut g = guard();
    assert_eq!(g.check_read("D:\\vault\\x.md"), Ok(()));
    g.add_allowed("E:\\more".to_string());
    assert_eq!(g.check_read("D:\\vault\\x.md"), Ok(()));
    assert_eq!(g.check_read("E:\\more\\y.md"), Ok(()));
}

#[test]
fn add_allowed_skips_a_path_equal_as_a_path() {
    let mut g = PathGuard::new(vec!["/data".to_string()]);
    g.add_allowed("/data/".to_string());
    assert_eq!(g.allowed_dirs_debug(), vec!["/data".to_string()]);
    g.add_allowed("/data/more".to_string());
    assert_eq!(g.allowed_dirs_debug(), vec!["/data".to_string(), "/data/more".to_string()]);
}

#[test]
fn sibling_directory_sharing_a_prefix_is_outside() {
    let g = PathGuard::new(vec!["/home/u/Documents".to_string()]);
    let r = g.check("/home/u/Documents2/x.txt", &PermissionLevel::Restricted);
    assert!(r.unwrap_err().starts_with("Path '/home/u/Documents2/x.txt' is outside allowed directories"));
    assert_eq!(g.check("/home/u/Documents/x.txt", &PermissionLevel::Restricted), Ok(()));
    assert_eq!(g.check("/home/u/Documents", &PermissionLevel::Restricted), Ok(()));
}

#[test]
fn parent_components_are_refused() {
    let g = PathGuard::new(vec!["/home/u/Documents".to_string()]);
    assert_eq!(
        g.check("/home/u/Documents/../secret.txt", &PermissionLevel::Restricted),
        Err("Path denied: contains '..'".to_string())
    );
    assert_eq!(g.check_read("D:\\vault\\..\\x"), Err("Path denied: contains '..'".to_string()));
    assert_eq!(g.check("/home/u/Documents/a..b.txt", &PermissionLevel::Restricted), Ok(()));
}

#[test]
fn allowed_directory_with_a_trailing_separator() {
    let g = PathGuard::new(vec!["D:\\vault\\".to_string()]);
    assert_eq!(g.check_read("D:\\vault\\x.md"), Ok(()));
    assert!(g.check_read("D:\\vaultx\\y.md").is_err());
}

#[test]
fn vault_variable_wins_when_nothing_was_saved() {
    assert_eq!(resolve_vault(None, Some("E:\\vault".into())), "E:\\vault");
    assert_eq!(resolve_vault(Some("C:\\saved".into()), None), "C:\\saved");
}
