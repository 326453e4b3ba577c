use ai_tools_hub::desk::{
    check_note_name, CronClock, CronJob, CronScheduler, FileEvent, ListedFile, WatchChange,
    WatchKind, WatchState,
};

fn job(id: &str, every: u64) -> CronJob {
    CronJob::new(id, "job", every, "echo hi")
}

#[test]
fn new_jobs_are_enabled_shell_jobs() {
    let j = CronJob::new("j1", "Backup", 60, "backup.sh");
    assert_eq!(j.id, "j1");
    assert_eq!(j.name, "Backup");
    assert_eq!(j.interval_secs, 60);
    assert_eq!(j.action, "shell");
    assert_eq!(j.command, "backup.sh");
    assert!(j.enabled);
    assert_eq!(j.last_run, "");
    assert_eq!(j.next_run, "");
}

#[test]
fn scheduler_adds_and_removes_by_id() {
    let mut s = CronScheduler::new();
    s.add(job("a", 1));
    s.add(job("b", 2));
    s.add(job("a", 3));
    assert_eq!(s.list().len(), 3);
    s.remove("a");
    let l = s.list();
    assert_eq!(l.len(), 1);
    assert_eq!(l[0].id, "b");
    s.remove("zzz");
    assert_eq!(s.list().len(), 1);
}

#[test]
fn jobs_run_once_per_interval() {
    let mut clock = CronClock::new();
    let jobs = vec![job("fast", 10), job("slow", 100)];
    assert!(clock.can_tick(&jobs, 1000));
    let due: Vec<String> = clock.due(&jobs, 1000).into_iter().map(|j| j.id).collect();
    assert_eq!(due, vec!["fast", "slow"]);
    assert!(clock.due(&jobs, 1005).is_empty());
    let due: Vec<String> = clock.due(&jobs, 1010).into_iter().map(|j| j.id).collect();
    assert_eq!(due, vec!["fast"]);
    let due: Vec<String> = clock.due(&jobs, 1100).into_iter().map(|j| j.id).collect();
    assert_eq!(due, vec!["fast", "slow"]);
    assert!(!clock.can_tick(&jobs, 1099));
}

#[test]
fn only_enabled_listed_jobs_are_checked_against_the_clock() {
    let mut clock = CronClock::new();
    let jobs = vec![job("a", 10)];
    clock.due(&jobs, 500);
    let other = vec![job("b", 10)];
    assert!(clock.can_tick(&other, 100));
    let mut off = job("a", 10);
    off.enabled = false;
    assert!(clock.can_tick(&vec![off], 100));
    assert!(!clock.can_tick(&jobs, 100));
}

#[test]
fn disabled_jobs_never_run() {
    let mut clock = CronClock::new();
    let mut j = job("off", 1);
    j.enabled = false;
    let jobs = vec![j];
    assert!(clock.due(&jobs, 50).is_empty());
    assert!(clock.due(&jobs, 5000).is_empty());
}

#[test]
fn watcher_reports_created_modified_and_deleted() {
    let mut w = WatchState::new();
    let f = |p: &str, t: u128| ListedFile { path: format!("/desk/{}", p), rel: p.to_string(), modified: Some(t) };
    let first = w.scan(&vec![f("a.md", 1), f("b.md", 1)]);
    let kinds: Vec<(String, WatchKind)> = first.into_iter().map(|c| (c.path, c.kind)).collect();
    assert_eq!(kinds, vec![("a.md".to_string(), WatchKind::Created), ("b.md".to_string(), WatchKind::Created)]);

    assert!(w.scan(&vec![f("a.md", 1), f("b.md", 1)]).is_empty());

    let second = w.scan(&vec![f("a.md", 2)]);
    let kinds: Vec<(String, WatchKind)> = second.into_iter().map(|c| (c.path, c.kind)).collect();
    assert_eq!(kinds, vec![("a.md".to_string(), WatchKind::Modified), ("b.md".to_string(), WatchKind::Deleted)]);
}

#[test]
fn unreadable_times_change_nothing_but_keep_the_file() {
    let mut w = WatchState::new();
    w.scan(&vec![ListedFile { path: "/d/x".into(), rel: "x".into(), modified: Some(5) }]);
    let c = w.scan(&vec![ListedFile { path: "/d/x".into(), rel: "x".into(), modified: None }]);
    assert!(c.is_empty());
}

#[test]
fn file_events_name_their_kind() {
    let e = FileEvent::from_change(&WatchChange { path: "n.md".into(), kind: WatchKind::Deleted }, "99".into());
    assert_eq!(e.path, "n.md");
    assert_eq!(e.kind, "deleted");
    assert_eq!(e.timestamp, "99");
    assert_eq!(WatchKind::Created.name(), "created");
    assert_eq!(WatchKind::Modified.name(), "modified");
}

#[test]
fn note_names() {
    assert_eq!(check_note_name("todo.md", true), Ok(()));
    assert_eq!(check_note_name("../x", true), Err("Invalid filename".to_string()));
    assert_eq!(check_note_name("a/b", true), Err("Invalid filename".to_string()));
    assert_eq!(check_note_name("a\\b", true), Err("Invalid filename".to_string()));
    assert_eq!(check_note_name("a..b", true), Err("Invalid filename".to_string()));
}

#[test]
fn drive_prefixes_are_refused_on_windows_only() {
    assert_eq!(check_note_name("C:x", true), Err("Invalid filename".to_string()));
    assert_eq!(check_note_name("z:notes.md", true), Err("Invalid filename".to_string()));
    assert_eq!(check_note_name("C:x", false), Ok(()));
    assert_eq!(check_note_name("note:2.md", true), Ok(()));
    assert_eq!(check_note_name("note:2.md", false), Ok(()));
    assert_eq!(check_note_name("1:x", true), Ok(()));
    assert_eq!(check_note_name(".hidden.md", true), Ok(()));
    assert_eq!(check_note_name("a/b", false), Err("Invalid filename".to_string()));
}
