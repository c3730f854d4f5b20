use clean_recent::db::mission::{create_mission_record_at, Mission, MissionStatus};
use clean_recent::db::procedure::{create_procedure_record_at, Procedure, TriggerKind};
use clean_recent::db::Database;
use clean_recent::engine::{Engine, EngineError};
use clean_recent::restore::{restore, restore_mission, Restored};
use clean_recent::time::Timestamp;

const T0: i64 = 1_700_000_000;

fn at(secs: i64) -> Timestamp {
    Timestamp { secs, nanos: 0 }
}

fn procedure(db: &mut Database, id: &str, trigger: TriggerKind, expression: &str) {
    let mut p = Procedure::default();
    p.trigger = trigger;
    p.cron_expression = expression.to_string();
    create_procedure_record_at(db, &mut p, id.to_string(), at(0));
}

/// Adds the mission `id` of the procedure `pid` and gives its row the
/// status `status`, as a store that was written earlier would hold it.
fn mission(db: &mut Database, id: &str, pid: &str, status: MissionStatus) {
    let mut m = Mission::default();
    m.procedure_id = pid.to_string();
    m.src_path = format!("/src/{}", id);
    create_mission_record_at(db, &mut m, id.to_string(), at(1)).unwrap();
    let last = db.missions.len() - 1;
    db.missions[last].status = status;
}

fn status_in_registry(e: &Engine, id: &str) -> Option<MissionStatus> {
    e.registry.get(id).map(|s| s.mission.status)
}

#[test]
fn the_engine_is_brought_up_from_the_store() {
    let mut db = Database::new();
    procedure(&mut db, "cron", TriggerKind::Cron, "*/5 * * * * * *");
    procedure(&mut db, "watch", TriggerKind::Monitor, "");
    procedure(&mut db, "broken", TriggerKind::Cron, "every now and then");
    mission(&mut db, "paused", "cron", MissionStatus::Paused);
    mission(&mut db, "timed", "cron", MissionStatus::Running);
    mission(&mut db, "watched", "watch", MissionStatus::Running);
    mission(&mut db, "stuck", "cron", MissionStatus::Backuping);
    mission(&mut db, "refused", "broken", MissionStatus::Running);
    mission(&mut db, "idle", "broken", MissionStatus::Paused);
    let mut e = Engine::new();
    assert_eq!(restore(&mut db, &mut e, 250, at(T0)), 1);
    // every mission is known to the registry
    for id in ["paused", "timed", "watched", "stuck", "refused", "idle"] {
        assert!(e.registry.knows(id), "{}", id);
    }
    assert_eq!(e.registry.len(), 6);
    // what was armed is armed, a run that was cut off is armed again
    assert_eq!(status_in_registry(&e, "paused"), Some(MissionStatus::Paused));
    assert_eq!(status_in_registry(&e, "timed"), Some(MissionStatus::Running));
    assert_eq!(status_in_registry(&e, "watched"), Some(MissionStatus::Running));
    assert_eq!(status_in_registry(&e, "stuck"), Some(MissionStatus::Running));
    assert_eq!(status_in_registry(&e, "refused"), Some(MissionStatus::Paused));
    assert_eq!(status_in_registry(&e, "idle"), Some(MissionStatus::Paused));
    assert_eq!(e.cron.len(), 2);
    assert_eq!(e.monitor.len(), 1);
    assert_eq!(e.cron.next_wakeup(), Some(at(T0 + 5)));
    assert!(e.monitor.on_event("watched", 10));
    // the store follows
    let stored: Vec<_> = db.missions.iter().map(|m| (m.mission_id.as_str(), m.status)).collect();
    assert_eq!(
        stored,
        vec![
            ("paused", MissionStatus::Paused),
            ("timed", MissionStatus::Running),
            ("watched", MissionStatus::Running),
            ("stuck", MissionStatus::Running),
            ("refused", MissionStatus::Paused),
            ("idle", MissionStatus::Paused),
        ]
    );
}

#[test]
fn rows_without_a_live_procedure_and_deleted_rows_are_passed_over() {
    let mut db = Database::new();
    procedure(&mut db, "p", TriggerKind::Monitor, "");
    mission(&mut db, "kept", "p", MissionStatus::Running);
    mission(&mut db, "gone", "p", MissionStatus::Running);
    mission(&mut db, "orphan", "p", MissionStatus::Running);
    db.missions[1].is_deleted = true;
    db.missions[2].procedure_id = "nowhere".to_string();
    let before = db.missions.clone();
    let mut e = Engine::new();
    assert_eq!(restore_mission(&mut db, &mut e, 1, 250, at(T0)), Restored::Skipped);
    assert_eq!(restore_mission(&mut db, &mut e, 2, 250, at(T0)), Restored::Skipped);
    assert_eq!(restore_mission(&mut db, &mut e, 3, 250, at(T0)), Restored::Skipped);
    assert_eq!(e.registry.len(), 0);
    assert_eq!(db.missions, before);
    assert_eq!(restore(&mut db, &mut e, 250, at(T0)), 0);
    assert_eq!(e.registry.len(), 1);
    assert!(e.registry.knows("kept"));
    assert_eq!(e.monitor.len(), 1);
    assert_eq!(db.missions, before);
}

#[test]
fn one_row_at_a_time() {
    let mut db = Database::new();
    procedure(&mut db, "good", TriggerKind::Cron, "0 * * * * * *");
    procedure(&mut db, "bad", TriggerKind::Cron, "");
    mission(&mut db, "a", "good", MissionStatus::Paused);
    mission(&mut db, "b", "good", MissionStatus::Running);
    mission(&mut db, "c", "bad", MissionStatus::Backuping);
    let mut e = Engine::new();
    assert_eq!(restore_mission(&mut db, &mut e, 0, 250, at(T0)), Restored::Paused);
    assert_eq!(e.cron.len(), 0);
    assert_eq!(restore_mission(&mut db, &mut e, 1, 250, at(T0)), Restored::Armed);
    assert_eq!(e.cron.len(), 1);
    assert_eq!(e.cron.next_wakeup(), Some(at(T0 + 40)));
    assert_eq!(
        restore_mission(&mut db, &mut e, 2, 250, at(T0)),
        Restored::Refused(EngineError::InvalidCronExpression)
    );
    assert_eq!(db.missions[2].status, MissionStatus::Paused);
    assert_eq!(status_in_registry(&e, "c"), Some(MissionStatus::Paused));
    assert_eq!(e.cron.len(), 1);
    // a second time every mission is known and nothing happens
    let rows = db.missions.clone();
    for i in 0..3 {
        assert_eq!(restore_mission(&mut db, &mut e, i, 250, at(T0 + 100)), Restored::Skipped);
    }
    assert_eq!(restore(&mut db, &mut e, 250, at(T0 + 100)), 0);
    assert_eq!(db.missions, rows);
    assert_eq!(e.registry.len(), 3);
    assert_eq!(e.cron.next_wakeup(), Some(at(T0 + 40)));
}

#[test]
fn of_two_live_rows_of_one_mission_the_first_is_taken() {
    let mut db = Database::new();
    procedure(&mut db, "p", TriggerKind::Monitor, "");
    mission(&mut db, "m", "p", MissionStatus::Running);
    mission(&mut db, "m", "p", MissionStatus::Paused);
    let mut e = Engine::new();
    assert_eq!(restore(&mut db, &mut e, 250, at(T0)), 0);
    assert_eq!(e.registry.len(), 1);
    assert_eq!(status_in_registry(&e, "m"), Some(MissionStatus::Running));
    assert_eq!(db.missions[0].status, MissionStatus::Running);
    assert_eq!(db.missions[1].status, MissionStatus::Running);
}
