use clean_recent::db::ignore::Ignore;
use clean_recent::db::mission::{Mission, MissionStatus, TimeLabel};
use clean_recent::db::procedure::{Procedure, TriggerKind};
use clean_recent::registry::{
    BeginOutcome, ExecutionOutcome, ExecutionTicket, MissionSnapshot, Registry, RegistryError,
};
use clean_recent::time::Timestamp;

fn at(secs: i64) -> Timestamp {
    Timestamp { secs, nanos: 0 }
}

fn snapshot(id: &str, trigger: TriggerKind) -> MissionSnapshot {
    let mut procedure = Procedure::blank(format!("p-{}", id), at(0));
    procedure.trigger = trigger;
    let mut mission = Mission::blank(id.to_string(), procedure.procedure_id.clone(), at(0));
    mission.name = id.to_string();
    MissionSnapshot { mission, procedure, ignores: Vec::new() }
}

fn registry_with(ids: &[&str]) -> Registry {
    let mut r = Registry::new();
    for id in ids {
        r.upsert(snapshot(id, TriggerKind::Cron)).unwrap();
    }
    r
}

fn started(r: Result<BeginOutcome, RegistryError>) -> ExecutionTicket {
    match r {
        Ok(BeginOutcome::Started(ticket)) => ticket,
        other => panic!("no ticket: {:?}", other),
    }
}

fn outcome(succeeded: bool) -> ExecutionOutcome {
    ExecutionOutcome { succeeded, next_runtime: None }
}

#[test]
fn new_missions_start_paused_with_the_next_ordinal() {
    let mut r = Registry::new();
    let mut s = snapshot("a", TriggerKind::Cron);
    s.mission.status = MissionStatus::Running;
    s.mission.id = 40;
    let m = r.upsert(s).unwrap();
    assert_eq!(m.status, MissionStatus::Paused);
    assert_eq!(m.id, 1);
    let m = r.upsert(snapshot("b", TriggerKind::Monitor)).unwrap();
    assert_eq!(m.id, 2);
    assert_eq!(r.len(), 2);
}

#[test]
fn upsert_keeps_status_and_ordinal() {
    let mut r = registry_with(&["a", "b"]);
    r.set_status("b", MissionStatus::Running).unwrap();
    let mut s = snapshot("b", TriggerKind::Monitor);
    s.mission.name = "renamed".to_string();
    s.mission.status = MissionStatus::Paused;
    s.mission.id = 77;
    let mut rule = Ignore::default();
    rule.keyword = "*.tmp".to_string();
    s.ignores.push(rule);
    let m = r.upsert(s).unwrap();
    assert_eq!(m.status, MissionStatus::Running);
    assert_eq!(m.id, 2);
    assert_eq!(m.name, "renamed");
    let got = r.get("b").unwrap();
    assert_eq!(got.mission, m);
    assert_eq!(got.procedure.trigger, TriggerKind::Monitor);
    assert_eq!(got.ignores.len(), 1);
    assert_eq!(r.len(), 2);
}

#[test]
fn upsert_refuses_what_is_not_admissible() {
    let mut r = registry_with(&["a"]);
    let mut s = snapshot("b", TriggerKind::Cron);
    s.procedure.is_deleted = true;
    assert_eq!(r.upsert(s), Err(RegistryError::NotFound));
    let mut s = snapshot("b", TriggerKind::Cron);
    s.mission.is_deleted = true;
    assert_eq!(r.upsert(s), Err(RegistryError::NotFound));
    let mut s = snapshot("b", TriggerKind::Cron);
    s.mission.procedure_id = "somebody-else".to_string();
    assert_eq!(r.upsert(s), Err(RegistryError::NotFound));
    r.remove("a", at(1)).unwrap();
    assert_eq!(r.upsert(snapshot("a", TriggerKind::Cron)), Err(RegistryError::NotFound));
    assert_eq!(r.len(), 1);
}

#[test]
fn set_status_allows_only_paused_and_running() {
    let mut r = registry_with(&["a"]);
    assert_eq!(r.set_status("a", MissionStatus::Paused), Err(RegistryError::InvalidTransition));
    assert_eq!(r.set_status("a", MissionStatus::Backuping), Err(RegistryError::InvalidTransition));
    let m = r.set_status("a", MissionStatus::Running).unwrap();
    assert_eq!(m.status, MissionStatus::Running);
    assert_eq!(r.get("a").unwrap().mission.status, MissionStatus::Running);
    assert_eq!(r.set_status("a", MissionStatus::Running), Err(RegistryError::InvalidTransition));
    assert_eq!(r.set_status("a", MissionStatus::Backuping), Err(RegistryError::InvalidTransition));
    let m = r.set_status("a", MissionStatus::Paused).unwrap();
    assert_eq!(m.status, MissionStatus::Paused);
}

#[test]
fn set_status_on_unknown_or_deleted_is_not_found() {
    let mut r = registry_with(&["a"]);
    assert_eq!(r.set_status("b", MissionStatus::Running), Err(RegistryError::NotFound));
    assert_eq!(r.set_status("b", MissionStatus::Backuping), Err(RegistryError::NotFound));
    r.remove("a", at(1)).unwrap();
    assert_eq!(r.set_status("a", MissionStatus::Running), Err(RegistryError::NotFound));
}

#[test]
fn no_status_change_while_a_run_is_under_way() {
    let mut r = registry_with(&["a"]);
    r.set_status("a", MissionStatus::Running).unwrap();
    let ticket = started(r.begin_execution("a", at(10)));
    assert_eq!(r.set_status("a", MissionStatus::Paused), Err(RegistryError::InvalidTransition));
    assert_eq!(r.set_status("a", MissionStatus::Running), Err(RegistryError::InvalidTransition));
    assert_eq!(r.get("a").unwrap().mission.status, MissionStatus::Backuping);
    r.end_execution(ticket, outcome(true)).unwrap();
}

#[test]
fn begin_execution_hands_out_one_ticket_at_a_time() {
    let mut r = registry_with(&["a", "b"]);
    r.set_status("a", MissionStatus::Running).unwrap();
    r.set_status("b", MissionStatus::Running).unwrap();
    let ticket = started(r.begin_execution("a", at(10)));
    assert_eq!(ticket.mission_id(), "a");
    assert_eq!(ticket.fired_at(), at(10));
    assert_eq!(ticket.snapshot().mission.status, MissionStatus::Backuping);
    assert_eq!(r.get("a").unwrap().mission.status, MissionStatus::Backuping);
    assert!(matches!(r.begin_execution("a", at(11)), Ok(BeginOutcome::Busy)));
    assert!(matches!(r.begin_execution("a", at(12)), Ok(BeginOutcome::Busy)));
    // another mission is not held up
    let other = started(r.begin_execution("b", at(12)));
    let m = r.end_execution(ticket, outcome(true)).unwrap();
    assert_eq!(m.status, MissionStatus::Running);
    let again = started(r.begin_execution("a", at(20)));
    r.end_execution(again, outcome(false)).unwrap();
    r.end_execution(other, outcome(true)).unwrap();
}

#[test]
fn begin_execution_refuses_paused_unknown_and_deleted() {
    let mut r = registry_with(&["a", "b"]);
    assert!(matches!(r.begin_execution("a", at(1)), Err(RegistryError::InvalidTransition)));
    assert!(matches!(r.begin_execution("zzz", at(1)), Err(RegistryError::NotFound)));
    r.set_status("b", MissionStatus::Running).unwrap();
    r.remove("b", at(1)).unwrap();
    assert!(matches!(r.begin_execution("b", at(2)), Err(RegistryError::NotFound)));
}

#[test]
fn end_execution_arms_again_whatever_the_outcome() {
    for succeeded in [true, false] {
        let mut r = registry_with(&["a"]);
        r.set_status("a", MissionStatus::Running).unwrap();
        let ticket = started(r.begin_execution("a", at(10)));
        let m = r.end_execution(ticket, outcome(succeeded)).unwrap();
        assert_eq!(m.status, MissionStatus::Running);
        assert_eq!(r.get("a").unwrap().mission, m);
    }
}

#[test]
fn end_execution_updates_the_instant_of_the_trigger_kind() {
    let mut r = Registry::new();
    r.upsert(snapshot("c", TriggerKind::Cron)).unwrap();
    r.upsert(snapshot("m", TriggerKind::Monitor)).unwrap();
    r.upsert(snapshot("r", TriggerKind::Reserved)).unwrap();
    for id in ["c", "m", "r"] {
        r.set_status(id, MissionStatus::Running).unwrap();
    }
    let next = ExecutionOutcome { succeeded: true, next_runtime: Some(at(500)) };
    let t = started(r.begin_execution("c", at(10)));
    let m = r.end_execution(t, next).unwrap();
    assert_eq!(m.next_runtime, at(500));
    assert_eq!(m.last_trigger, at(0));
    let t = started(r.begin_execution("c", at(20)));
    let m = r.end_execution(t, outcome(true)).unwrap();
    assert_eq!(m.next_runtime, at(500));
    let t = started(r.begin_execution("m", at(30)));
    let m = r.end_execution(t, next).unwrap();
    assert_eq!(m.last_trigger, at(30));
    assert_eq!(m.next_runtime, at(0));
    let t = started(r.begin_execution("r", at(40)));
    let m = r.end_execution(t, next).unwrap();
    assert_eq!(m.last_trigger, at(0));
    assert_eq!(m.next_runtime, at(0));
}

#[test]
fn a_ticket_of_another_registry_is_refused() {
    let mut r = registry_with(&["a"]);
    let mut other = registry_with(&["a", "b"]);
    other.set_status("a", MissionStatus::Running).unwrap();
    other.set_status("b", MissionStatus::Running).unwrap();
    let foreign = started(other.begin_execution("a", at(1)));
    assert_eq!(r.end_execution(foreign, outcome(true)), Err(RegistryError::InvalidTransition));
    let foreign = started(other.begin_execution("b", at(1)));
    assert_eq!(r.end_execution(foreign, outcome(true)), Err(RegistryError::NotFound));
    assert_eq!(r.get("a").unwrap().mission.status, MissionStatus::Paused);
}

#[test]
fn a_run_outlives_the_deletion_of_its_mission() {
    let mut r = registry_with(&["a"]);
    r.set_status("a", MissionStatus::Running).unwrap();
    let ticket = started(r.begin_execution("a", at(10)));
    let m = r.remove("a", at(11)).unwrap();
    assert!(m.is_deleted);
    assert_eq!(m.delete_at, at(11));
    assert_eq!(m.status, MissionStatus::Backuping);
    assert!(r.get("a").is_none());
    // compaction keeps the entry while the run lasts
    assert_eq!(r.compact(), 0);
    assert_eq!(r.len(), 1);
    let m = r.end_execution(ticket, outcome(true)).unwrap();
    assert_eq!(m.status, MissionStatus::Running);
    assert!(m.is_deleted);
    assert_eq!(r.compact(), 1);
    assert_eq!(r.len(), 0);
}

#[test]
fn remove_is_soft_and_happens_once() {
    let mut r = registry_with(&["a", "b"]);
    assert_eq!(r.remove("zzz", at(1)), Err(RegistryError::NotFound));
    r.remove("a", at(1)).unwrap();
    assert_eq!(r.remove("a", at(2)), Err(RegistryError::NotFound));
    assert_eq!(r.len(), 2);
    assert!(r.get("a").is_none());
    assert!(r.get("b").is_some());
}

#[test]
fn set_time_touches_one_instant_only() {
    let mut r = registry_with(&["a"]);
    let m = r.set_time("a", TimeLabel::Next, at(100)).unwrap();
    assert_eq!(m.next_runtime, at(100));
    assert_eq!(m.last_trigger, at(0));
    assert_eq!(m.status, MissionStatus::Paused);
    let m = r.set_time("a", TimeLabel::Last, at(200)).unwrap();
    assert_eq!(m.next_runtime, at(100));
    assert_eq!(m.last_trigger, at(200));
    assert_eq!(r.set_time("b", TimeLabel::Last, at(1)), Err(RegistryError::NotFound));
    r.remove("a", at(1)).unwrap();
    assert_eq!(r.set_time("a", TimeLabel::Last, at(1)), Err(RegistryError::NotFound));
}

#[test]
fn list_missions_filters() {
    let mut r = registry_with(&["a", "b", "c"]);
    r.set_status("b", MissionStatus::Running).unwrap();
    r.remove("c", at(1)).unwrap();
    let names = |v: Vec<Mission>| v.into_iter().map(|m| m.mission_id).collect::<Vec<_>>();
    assert_eq!(names(r.list_missions(None, false)), vec!["a", "b"]);
    assert_eq!(names(r.list_missions(None, true)), vec!["a", "b", "c"]);
    assert_eq!(names(r.list_missions(Some(MissionStatus::Running), false)), vec!["b"]);
    assert_eq!(names(r.list_missions(Some(MissionStatus::Paused), false)), vec!["a"]);
    assert_eq!(names(r.list_missions(Some(MissionStatus::Paused), true)), vec!["a", "c"]);
    assert!(r.list_missions(Some(MissionStatus::Backuping), true).is_empty());
}

#[test]
fn compact_renumbers_and_keeps_identities() {
    let mut r = registry_with(&["a", "b", "c", "d"]);
    r.set_status("d", MissionStatus::Running).unwrap();
    r.remove("a", at(1)).unwrap();
    r.remove("c", at(1)).unwrap();
    assert_eq!(r.compact(), 2);
    let left = r.list_missions(None, true);
    assert_eq!(left.iter().map(|m| m.id).collect::<Vec<_>>(), vec![1, 2]);
    assert_eq!(left.iter().map(|m| m.mission_id.as_str()).collect::<Vec<_>>(), vec!["b", "d"]);
    assert_eq!(left[1].status, MissionStatus::Running);
    assert_eq!(r.get("d").unwrap().procedure.procedure_id, "p-d");
    assert_eq!(r.compact(), 0);
}
