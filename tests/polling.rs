use query_watch::poller::{Action, Event, Phase, Poller, SUB_TICKS_PER_CYCLE};
use query_watch::query::{RunningQuery, Snapshot, Timestamp};
use query_watch::supervisor::Supervisor;

fn row(pid: i32, text: &str) -> RunningQuery {
    RunningQuery::new(Timestamp { secs: 1_700_000_000, nanos: 0 }, pid, "app".to_string(), text.to_string())
}

fn polling() -> Poller {
    let mut p = Poller::new();
    assert!(matches!(p.step(Event::Connected), Action::Wait));
    assert_eq!(p.phase, Phase::Polling);
    p
}

fn notified(a: Action) -> Vec<RunningQuery> {
    match a {
        Action::Notify(v) => v,
        _ => panic!("expected a notification"),
    }
}

#[test]
fn snapshot_keeps_one_of_each_record() {
    let s = Snapshot::from_rows(vec![row(1, "a"), row(1, "a"), row(2, "b")]);
    assert!(s.contains(&row(1, "a")));
    assert!(s.contains(&row(2, "b")));
    assert!(!s.contains(&row(1, "b")));
}

#[test]
fn diff_reports_vanished_records() {
    let prev = Snapshot::from_rows(vec![row(1, "a"), row(2, "b"), row(3, "c")]);
    let curr = Snapshot::from_rows(vec![row(2, "b"), row(4, "d")]);
    let mut done = prev.finished_since(&curr);
    done.sort_by_key(|q| q.pid);
    assert_eq!(done.len(), 2);
    assert!(done[0] == row(1, "a"));
    assert!(done[1] == row(3, "c"));
}

#[test]
fn changed_text_counts_as_finished() {
    let prev = Snapshot::from_rows(vec![row(1, "a")]);
    let curr = Snapshot::from_rows(vec![row(1, "a2")]);
    let done = prev.finished_since(&curr);
    assert_eq!(done.len(), 1);
    assert!(done[0] == row(1, "a"));
}

#[test]
fn same_snapshot_reports_nothing() {
    let mut p = polling();
    notified(p.step(Event::Fetched(vec![row(1, "a"), row(2, "b")])));
    let done = notified(p.step(Event::Fetched(vec![row(2, "b"), row(1, "a")])));
    assert!(done.is_empty());
}

#[test]
fn fetch_replaces_previous() {
    let mut p = polling();
    assert!(notified(p.step(Event::Fetched(vec![row(1, "a")]))).is_empty());
    assert!(p.previous.contains(&row(1, "a")));
    let done = notified(p.step(Event::Fetched(vec![row(2, "b")])));
    assert_eq!(done.len(), 1);
    assert!(done[0] == row(1, "a"));
    assert!(p.previous.contains(&row(2, "b")));
    assert!(!p.previous.contains(&row(1, "a")));
}

#[test]
fn failed_fetch_keeps_previous_snapshot() {
    let mut p = polling();
    notified(p.step(Event::Fetched(vec![row(1, "a")])));
    assert!(matches!(p.step(Event::FetchFailed), Action::Wait));
    assert!(matches!(p.step(Event::FetchFailed), Action::Wait));
    assert!(p.previous.contains(&row(1, "a")));
    let done = notified(p.step(Event::Fetched(vec![])));
    assert_eq!(done.len(), 1);
    assert!(done[0] == row(1, "a"));
}

#[test]
fn fetch_every_cycle_of_sub_ticks() {
    let mut p = polling();
    for _ in 0..2 {
        for _ in 1..SUB_TICKS_PER_CYCLE {
            assert!(matches!(p.step(Event::SubTick { shutdown: false }), Action::Wait));
        }
        assert!(matches!(p.step(Event::SubTick { shutdown: false }), Action::Fetch));
    }
}

#[test]
fn shutdown_closes_at_next_sub_tick() {
    let mut p = polling();
    assert!(matches!(p.step(Event::SubTick { shutdown: false }), Action::Wait));
    assert!(matches!(p.step(Event::SubTick { shutdown: true }), Action::Release));
    assert_eq!(p.phase, Phase::Stopping);
    assert!(matches!(p.step(Event::Fetched(vec![row(1, "a")])), Action::Idle));
    assert!(matches!(p.step(Event::SubTick { shutdown: true }), Action::Idle));
    assert!(matches!(p.step(Event::Released), Action::Finish));
    assert_eq!(p.phase, Phase::Closed);
    assert!(p.is_done());
    assert!(matches!(p.step(Event::Fetched(vec![])), Action::Idle));
}

#[test]
fn connect_failure_is_fatal() {
    let mut p = Poller::new();
    assert!(matches!(p.step(Event::ConnectFailed), Action::Abort));
    assert_eq!(p.phase, Phase::Failed);
    assert!(p.is_done());
    assert!(matches!(p.step(Event::SubTick { shutdown: false }), Action::Idle));
}

#[test]
fn one_failure_does_not_stop_others() {
    let mut s = Supervisor::new(3);
    assert!(matches!(s.deliver(0, Event::ConnectFailed), Action::Abort));
    assert!(matches!(s.deliver(1, Event::Connected), Action::Wait));
    assert!(matches!(s.deliver(2, Event::Connected), Action::Wait));
    assert_eq!(s.pollers[0].phase, Phase::Failed);
    assert_eq!(s.pollers[1].phase, Phase::Polling);
    assert_eq!(s.pollers[2].phase, Phase::Polling);
    assert!(!s.all_finished());
    for i in 1..3 {
        assert!(matches!(s.deliver(i, Event::SubTick { shutdown: true }), Action::Release));
        assert!(matches!(s.deliver(i, Event::Released), Action::Finish));
    }
    assert!(s.all_finished());
}

#[test]
fn empty_supervisor_is_finished() {
    assert!(Supervisor::new(0).all_finished());
}

#[test]
fn statement_carries_threshold_verbatim() {
    let sql = query_watch::query::active_queries_sql("5 sec");
    assert!(sql.starts_with("select query_start, pid, application_name, query from pg_stat_activity"));
    assert!(sql.ends_with("query_start < NOW() - INTERVAL '5 sec'"));
}

#[test]
fn snapshot_insert_ignores_duplicates() {
    let mut s = Snapshot::new();
    assert!(!s.contains(&row(1, "a")));
    s.insert(row(1, "a"));
    s.insert(row(1, "a"));
    let done = s.finished_since(&Snapshot::new());
    assert_eq!(done.len(), 1);
}
