use clean_recent::db::mission::{Mission, MissionStatus, PathType};
use clean_recent::db::procedure::{Procedure, TriggerKind};
use clean_recent::debounce::{Debouncer, DEFAULT_WINDOW_MS};
use clean_recent::monitor::{MonitorScheduler, SettleOutcome};
use clean_recent::registry::{ExecutionOutcome, MissionSnapshot, Registry, RegistryError};
use clean_recent::time::Timestamp;

fn at(secs: i64) -> Timestamp {
    Timestamp { secs, nanos: 0 }
}

fn armed(ids: &[&str]) -> Registry {
    let mut r = Registry::new();
    for id in ids {
        let mut procedure = Procedure::blank(format!("p-{}", id), at(0));
        procedure.trigger = TriggerKind::Monitor;
        let mission = Mission::blank(id.to_string(), procedure.procedure_id.clone(), at(0));
        r.upsert(MissionSnapshot { mission, procedure, ignores: Vec::new() }).unwrap();
        r.set_status(id, MissionStatus::Running).unwrap();
    }
    r
}

#[test]
fn a_burst_within_the_window_triggers_once() {
    for n in [1u64, 2, 5, 100] {
        let mut d = Debouncer::new(DEFAULT_WINDOW_MS);
        let mut triggers = 0;
        for k in 0..n {
            let t = 10_000 + k * (2_999 / n);
            d.on_event(t);
            // polls between the events find nothing settled
            if d.poll(t + 1) {
                triggers += 1;
            }
        }
        let last = 10_000 + (n - 1) * (2_999 / n);
        assert!(!d.poll(last + 2_999));
        assert_eq!(triggers, 0);
        for now in [last + 3_000, last + 3_001, last + 10_000] {
            if d.poll(now) {
                triggers += 1;
            }
        }
        assert_eq!(triggers, 1, "{} events", n);
        assert_eq!(d.pending, None);
    }
}

#[test]
fn two_bursts_trigger_twice() {
    let mut d = Debouncer::new(1_000);
    d.on_event(0);
    d.on_event(500);
    assert!(!d.poll(1_499));
    assert!(d.poll(1_500));
    assert!(!d.poll(1_600));
    d.on_event(5_000);
    assert!(d.poll(6_000));
    assert!(!d.poll(7_000));
}

#[test]
fn debouncer_edges() {
    let mut d = Debouncer::new(0);
    assert_eq!(d.deadline(), None);
    assert!(!d.poll(5));
    d.on_event(5);
    assert_eq!(d.deadline(), Some(5));
    assert!(d.poll(5));
    let mut d = Debouncer::new(10);
    d.on_event(100);
    d.on_event(50); // a late report of an earlier event does not move the burst back
    assert_eq!(d.pending, Some(100));
    assert_eq!(d.deadline(), Some(110));
    assert!(!d.poll(40)); // a clock that went back settles nothing
    assert!(!d.poll(109));
    assert!(d.poll(110));
    let mut d = Debouncer::new(u64::MAX);
    d.on_event(7);
    assert_eq!(d.deadline(), Some(u64::MAX));
    assert!(!d.poll(u64::MAX));
    assert_eq!(DEFAULT_WINDOW_MS, 3_000);
}

#[test]
fn watch_and_unwatch() {
    let mut m = MonitorScheduler::new();
    assert!(!m.unwatch("a"));
    m.watch("a", "/data/a", PathType::Directory, 3_000);
    m.watch("b", "/data/b.txt", PathType::File, 3_000);
    assert_eq!(m.len(), 2);
    m.watch("a", "/data/a2", PathType::Unknown, 500);
    assert_eq!(m.len(), 2);
    assert!(m.unwatch("a"));
    assert!(!m.unwatch("a"));
    assert_eq!(m.len(), 1);
    assert!(!m.on_event("a", 1));
    assert!(m.on_event("b", 1));
}

#[test]
fn settle_starts_the_mission_once_per_burst() {
    let mut r = armed(&["a"]);
    let mut m = MonitorScheduler::new();
    m.watch("a", "/data/a", PathType::Directory, 3_000);
    assert!(matches!(m.settle(&mut r, "a", 0, at(0)), SettleOutcome::Quiet));
    assert_eq!(m.next_deadline(), None);
    for t in [1_000, 1_500, 2_000] {
        assert!(m.on_event("a", t));
    }
    assert_eq!(m.next_deadline(), Some(5_000));
    assert!(matches!(m.settle(&mut r, "a", 4_999, at(4)), SettleOutcome::Quiet));
    let ticket = match m.settle(&mut r, "a", 5_000, at(5)) {
        SettleOutcome::Started(t) => t,
        other => panic!("{:?}", other),
    };
    assert_eq!(ticket.fired_at(), at(5));
    assert!(matches!(m.settle(&mut r, "a", 9_000, at(9)), SettleOutcome::Quiet));
    assert_eq!(m.next_deadline(), None);
    let mission = r.end_execution(ticket, ExecutionOutcome { succeeded: true, next_runtime: None }).unwrap();
    assert_eq!(mission.last_trigger, at(5));
}

#[test]
fn a_trigger_during_a_run_is_dropped_not_queued() {
    let mut r = armed(&["a"]);
    let mut m = MonitorScheduler::new();
    m.watch("a", "/data/a", PathType::Directory, 1_000);
    m.on_event("a", 0);
    let ticket = match m.settle(&mut r, "a", 1_000, at(1)) {
        SettleOutcome::Started(t) => t,
        other => panic!("{:?}", other),
    };
    m.on_event("a", 2_000);
    assert!(matches!(m.settle(&mut r, "a", 3_000, at(3)), SettleOutcome::Dropped));
    r.end_execution(ticket, ExecutionOutcome { succeeded: true, next_runtime: None }).unwrap();
    // nothing was queued: without a new event nothing starts
    assert!(matches!(m.settle(&mut r, "a", 9_000, at(9)), SettleOutcome::Quiet));
    m.on_event("a", 10_000);
    assert!(matches!(m.settle(&mut r, "a", 11_000, at(11)), SettleOutcome::Started(_)));
}

#[test]
fn settle_reports_what_the_registry_refuses() {
    let mut r = armed(&["a"]);
    r.set_status("a", MissionStatus::Paused).unwrap();
    let mut m = MonitorScheduler::new();
    m.watch("a", "/data/a", PathType::Directory, 10);
    m.watch("ghost", "/data/g", PathType::Directory, 10);
    m.on_event("a", 0);
    m.on_event("ghost", 0);
    assert!(matches!(
        m.settle(&mut r, "a", 10, at(1)),
        SettleOutcome::Refused(RegistryError::InvalidTransition)
    ));
    assert!(matches!(
        m.settle(&mut r, "ghost", 10, at(1)),
        SettleOutcome::Refused(RegistryError::NotFound)
    ));
    assert!(matches!(m.settle(&mut r, "nobody", 10, at(1)), SettleOutcome::Unwatched));
}

#[test]
fn a_lost_watch_takes_no_events_until_watched_anew() {
    let mut r = armed(&["a"]);
    let mut m = MonitorScheduler::new();
    m.watch("a", "/data/a", PathType::Directory, 10);
    m.on_event("a", 0);
    assert!(m.mark_lost("a"));
    assert!(!m.mark_lost("a"));
    assert!(!m.mark_lost("nobody"));
    assert_eq!(m.next_deadline(), None);
    assert!(!m.on_event("a", 5));
    assert!(matches!(m.settle(&mut r, "a", 100, at(1)), SettleOutcome::Unwatched));
    // the mission itself stays armed
    assert_eq!(r.get("a").unwrap().mission.status, MissionStatus::Running);
    m.watch("a", "/data/a", PathType::Directory, 10);
    assert!(m.on_event("a", 200));
    assert!(matches!(m.settle(&mut r, "a", 210, at(2)), SettleOutcome::Started(_)));
}

#[test]
fn next_deadline_is_the_earliest() {
    let mut m = MonitorScheduler::new();
    m.watch("a", "/a", PathType::Directory, 1_000);
    m.watch("b", "/b", PathType::Directory, 100);
    m.watch("c", "/c", PathType::Directory, 10);
    m.on_event("a", 50);
    m.on_event("b", 500);
    assert_eq!(m.next_deadline(), Some(600));
    m.on_event("c", 20);
    assert_eq!(m.next_deadline(), Some(30));
    m.mark_lost("c");
    assert_eq!(m.next_deadline(), Some(600));
}

#[test]
fn watches_that_fall_silent_are_given_up() {
    let mut m = MonitorScheduler::new();
    m.watch("a", "/a", PathType::Directory, 10);
    m.watch("b", "/b", PathType::Directory, 10);
    m.watch("c", "/c", PathType::Directory, 10);
    assert!(m.heartbeat("a", 1_000));
    assert!(m.on_event("b", 2_000));
    assert!(!m.heartbeat("nobody", 1_000));
    // nothing was heard of c yet, so c is not given up
    assert!(m.expire(6_000, 5_000).is_empty());
    assert_eq!(m.expire(6_001, 5_000), vec!["a"]);
    assert!(!m.heartbeat("a", 6_500));
    assert!(!m.on_event("a", 6_500));
    assert_eq!(m.next_deadline(), Some(2_010));
    assert_eq!(m.expire(7_001, 5_000), vec!["b"]);
    assert_eq!(m.next_deadline(), None);
    assert!(m.expire(u64::MAX, 0).is_empty());
    assert!(m.heartbeat("c", 9_000));
    assert!(m.expire(8_000, 0).is_empty());
    assert!(m.expire(9_000, 0).is_empty());
    assert_eq!(m.expire(9_001, 0), vec!["c"]);
    assert_eq!(m.len(), 3);
}
