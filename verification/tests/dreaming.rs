use mind_palace::clock::Timestamp;
use mind_palace::dream::{days_before, DreamAction, DreamEvent, DreamPhase, DreamRun, DreamStats};

fn keys(v: &[&str]) -> Vec<String> {
    v.iter().map(|s| s.to_string()).collect()
}

#[test]
fn empty_listing_ends_without_pruning() {
    let (run, action) = DreamRun::start();
    assert!(matches!(action, DreamAction::ListLogs));
    let (run, action) = run.step(DreamEvent::Listed(keys(&["sessions/readme.txt"])));
    assert_eq!(run.phase, DreamPhase::Done);
    match action {
        DreamAction::Finish(stats) => assert_eq!(stats, DreamStats::default()),
        other => panic!("expected the run to finish, got {other:?}"),
    }
}

#[test]
fn processed_logs_are_counted_then_deleted() {
    let (run, _) = DreamRun::start();
    let (run, action) = run.step(DreamEvent::Listed(keys(&["s/a.jsonl", "s/notes.md", "s/b.jsonl"])));
    assert_eq!(run.logs, keys(&["s/a.jsonl", "s/b.jsonl"]));
    assert!(matches!(action, DreamAction::LoadRecentChanges));
    let (run, action) = run.step(DreamEvent::RecentLoaded);
    assert!(matches!(action, DreamAction::Process(ref k) if k == "s/a.jsonl"));
    let (run, action) = run.step(DreamEvent::Processed(Some((2, 1))));
    assert!(matches!(action, DreamAction::Delete(ref k) if k == "s/a.jsonl"));
    let (run, action) = run.step(DreamEvent::Deleted(true));
    assert!(matches!(action, DreamAction::Process(ref k) if k == "s/b.jsonl"));
    let (run, action) = run.step(DreamEvent::Processed(None));
    assert!(matches!(action, DreamAction::Prune));
    let (run, action) = run.step(DreamEvent::Pruned);
    assert_eq!(run.phase, DreamPhase::Done);
    match action {
        DreamAction::Finish(stats) => assert_eq!(
            stats,
            DreamStats { logs_processed: 1, pages_created: 2, pages_updated: 1, logs_deleted: 1 }
        ),
        other => panic!("expected the run to finish, got {other:?}"),
    }
}

#[test]
fn failed_deletion_is_not_counted() {
    let (run, _) = DreamRun::start();
    let (run, _) = run.step(DreamEvent::Listed(keys(&["s/a.jsonl"])));
    let (run, _) = run.step(DreamEvent::RecentLoaded);
    let (run, _) = run.step(DreamEvent::Processed(Some((0, 0))));
    let (run, action) = run.step(DreamEvent::Deleted(false));
    assert!(matches!(action, DreamAction::Prune));
    assert_eq!(run.stats.logs_processed, 1);
    assert_eq!(run.stats.logs_deleted, 0);
}

#[test]
fn failed_listing_or_unexpected_event_fails_the_run() {
    let (run, _) = DreamRun::start();
    let (run, action) = run.step(DreamEvent::ListFailed);
    assert_eq!(run.phase, DreamPhase::Failed);
    assert!(matches!(action, DreamAction::Fail));
    let (run, _) = DreamRun::start();
    let (run, action) = run.step(DreamEvent::Pruned);
    assert_eq!(run.phase, DreamPhase::Failed);
    assert!(matches!(action, DreamAction::Fail));
}

#[test]
fn days_before_goes_back_and_forward() {
    let t = Timestamp { secs: 1_000_000, nanos: 5 };
    assert_eq!(days_before(t, 7), Timestamp { secs: 1_000_000 - 7 * 86_400, nanos: 5 });
    assert_eq!(days_before(t, -1), Timestamp { secs: 1_000_000 + 86_400, nanos: 5 });
}
