use smart_organizer::disk::{after_rename, MoveFollowUp, RenameOutcome};
use smart_organizer::errors::OrganizerError;
use smart_organizer::history::{History, HistoryManager, MovedFile, Timestamp};
use smart_organizer::organizer::{
    alternative_name, plan_move, record_of, resolve_conflict, target_dir_for, undo_step,
    undo_steps, EntryAction, OrganizeRun, OrganizerConfig, PlannedMove,
};
use smart_organizer::rules::ExtensionRuleEngine;

fn config(dry_run: bool, overwrite: bool) -> OrganizerConfig {
    OrganizerConfig {
        src_dir: "/src".to_string(),
        dst_dir: "/dst".to_string(),
        dry_run,
        overwrite,
    }
}

fn moved(from: &str, to: &str, secs: i64) -> MovedFile {
    MovedFile { from: from.to_string(), to: to.to_string(), time: Timestamp { secs, nanos: 0 } }
}

#[test]
fn alternative_names() {
    assert_eq!(alternative_name("photo.jpg", 1), "photo_(1).jpg");
    assert_eq!(alternative_name("README", 2), "README_(2)");
    assert_eq!(alternative_name("end.", 3), "end_(3)");
    assert_eq!(alternative_name(".env", 12), ".env_(12)");
}

#[test]
fn resolver_skips_taken_names() {
    let taken = vec!["photo.jpg".to_string(), "photo_(1).jpg".to_string()];
    assert_eq!(resolve_conflict("photo.jpg", &taken), Ok("photo_(2).jpg".to_string()));
}

#[test]
fn resolver_counts_past_nine() {
    let mut taken = vec!["a.txt".to_string()];
    for i in 1..10 {
        taken.push(format!("a_({}).txt", i));
    }
    assert_eq!(resolve_conflict("a.txt", &taken), Ok("a_(10).txt".to_string()));
    assert_eq!(resolve_conflict("b", &Vec::new()), Ok("b_(1)".to_string()));
}

#[test]
fn resolver_never_repeats_a_name() {
    let mut taken = vec!["a.txt".to_string()];
    let mut seen: Vec<String> = Vec::new();
    for _ in 0..5 {
        let c = resolve_conflict("a.txt", &taken).unwrap();
        assert!(!taken.contains(&c));
        assert!(!seen.contains(&c));
        seen.push(c.clone());
        taken.push(c);
    }
    assert_eq!(seen[4], "a_(5).txt");
}

#[test]
fn target_folder_under_destination() {
    let cfg = config(false, false);
    assert_eq!(target_dir_for(&cfg, &ExtensionRuleEngine, "/src/report.pdf"), "/dst/pdf");
    assert_eq!(target_dir_for(&cfg, &ExtensionRuleEngine, "/src/sub/Makefile"), "/dst/no_extension");
}

#[test]
fn two_files_sorted_by_extension() {
    let cfg = config(false, false);
    let rules = ExtensionRuleEngine;
    let mut history = History::new();
    for file in ["/src/report.pdf", "/src/photo.jpg"] {
        let dir = target_dir_for(&cfg, &rules, file);
        let plan = plan_move(&cfg, file, &dir, &Vec::new()).unwrap();
        assert!(plan.perform);
        history.push(record_of(plan));
    }
    assert_eq!(history.len(), 2);
    assert_eq!(history.moves[0].from, "/src/report.pdf");
    assert_eq!(history.moves[0].to, "/dst/pdf/report.pdf");
    assert_eq!(history.moves[1].from, "/src/photo.jpg");
    assert_eq!(history.moves[1].to, "/dst/jpg/photo.jpg");
}

#[test]
fn existing_destination_gets_numbered_name() {
    let cfg = config(false, false);
    let taken = vec!["photo.jpg".to_string()];
    let plan = plan_move(&cfg, "/src/photo.jpg", "/dst/jpg", &taken).unwrap();
    assert_eq!(plan.to, "/dst/jpg/photo_(1).jpg");
}

#[test]
fn overwrite_keeps_the_name() {
    let cfg = config(false, true);
    let taken = vec!["photo.jpg".to_string()];
    let plan = plan_move(&cfg, "/src/photo.jpg", "/dst/jpg", &taken).unwrap();
    assert_eq!(plan.to, "/dst/jpg/photo.jpg");
}

#[test]
fn dry_run_performs_nothing() {
    let cfg = config(true, false);
    let plan = plan_move(&cfg, "/src/a.txt", "/dst/txt", &Vec::new()).unwrap();
    assert_eq!(
        plan,
        PlannedMove { from: "/src/a.txt".to_string(), to: "/dst/txt/a.txt".to_string(), perform: false }
    );
}

#[test]
fn path_without_file_name_fails() {
    let cfg = config(false, false);
    assert_eq!(
        plan_move(&cfg, "/", "/dst/x", &Vec::new()),
        Err(OrganizerError::Other("Cannot extract filename from /".to_string()))
    );
}

#[test]
fn history_push_then_pop_last() {
    let mut h = History::new();
    h.push(moved("/a", "/b", 1));
    let before = h.clone();
    h.push(moved("/c", "/d", 2));
    assert_eq!(h.len(), 2);
    assert_eq!(h.pop_last(), Some(moved("/c", "/d", 2)));
    assert_eq!(h, before);
}

#[test]
fn pop_last_on_empty_history() {
    let mut h = History::default();
    assert_eq!(h.pop_last(), None);
    assert_eq!(h.len(), 0);
}

#[test]
fn take_all_empties_history() {
    let mut h = History::new();
    h.push(moved("/a", "/b", 1));
    h.push(moved("/c", "/d", 2));
    let all = h.take_all();
    assert_eq!(all, vec![moved("/a", "/b", 1), moved("/c", "/d", 2)]);
    assert_eq!(h.len(), 0);
}

#[test]
fn undo_steps_run_newest_first() {
    let steps = undo_steps(vec![moved("/a", "/b", 1), moved("/c", "/d", 2), moved("/e", "/f", 3)]);
    let pairs: Vec<(String, String)> = steps.into_iter().map(|s| (s.from, s.to)).collect();
    assert_eq!(
        pairs,
        vec![
            ("/f".to_string(), "/e".to_string()),
            ("/d".to_string(), "/c".to_string()),
            ("/b".to_string(), "/a".to_string()),
        ]
    );
    assert!(undo_steps(Vec::new()).is_empty());
}

#[test]
fn undo_step_swaps_paths() {
    let s = undo_step(moved("/from", "/to", 5));
    assert_eq!((s.from.as_str(), s.to.as_str()), ("/to", "/from"));
}

#[test]
fn record_keeps_paths() {
    let r = record_of(PlannedMove { from: "/x".to_string(), to: "/y/x".to_string(), perform: true });
    assert_eq!((r.from.as_str(), r.to.as_str()), ("/x", "/y/x"));
    assert!(r.time.secs > 0);
}

#[test]
fn run_skips_dirs_and_stops_on_cancel() {
    let mut run = OrganizeRun::new();
    assert_eq!(run.next_entry(false, true), EntryAction::Skip);
    assert_eq!(run.next_entry(false, false), EntryAction::Process);
    assert_eq!(run.next_entry(true, false), EntryAction::Stop);
    assert!(run.terminated);
    assert_eq!(run.next_entry(false, false), EntryAction::Stop);
}

#[test]
fn run_keeps_most_recent_error() {
    let mut run = OrganizeRun::new();
    assert_eq!(run.last_error(), None);
    run.file_failed(OrganizerError::Io("one".to_string()));
    run.file_failed(OrganizerError::Other("two".to_string()));
    assert_eq!(run.last_error(), Some("Other error: two".to_string()));
    assert_eq!(run.next_entry(false, false), EntryAction::Process);
    run.finish();
    assert!(run.terminated);
}

#[test]
fn rename_follow_ups() {
    assert_eq!(after_rename(RenameOutcome::Renamed), MoveFollowUp::Done);
    assert_eq!(after_rename(RenameOutcome::CrossesDevices), MoveFollowUp::CopyThenRemove);
    let e = OrganizerError::PermissionDenied("/p".to_string());
    assert_eq!(after_rename(RenameOutcome::Failed(e.clone())), MoveFollowUp::Fail(e));
}

#[test]
fn history_manager_keeps_path() {
    let m = HistoryManager::new(".smart_organizer/history.json".to_string());
    assert_eq!(m.path(), ".smart_organizer/history.json");
}
