use clean_recent::db::ignore::{create_ignore_record, delete_ignore_record};
use clean_recent::db::mission::{
    delete_mission_record, delete_mission_record_at, update_mission_status, Mission,
    MissionStatus,
};
use clean_recent::db::procedure::{
    create_procedure_record, delete_procedure_record, update_procedure_record, Procedure,
    TriggerKind,
};
use clean_recent::db::ignore::Ignore;
use clean_recent::db::Database;
use clean_recent::engine::{Engine, EngineError};
use clean_recent::missions::{
    create_mission, create_mission_at, delete_mission, delete_mission_at, set_status,
    update_mission, update_mission_at,
};
use clean_recent::registry::Registry;
use clean_recent::time::Timestamp;

fn at(secs: i64) -> Timestamp {
    Timestamp { secs, nanos: 0 }
}

fn store_with_procedure() -> (Database, Procedure) {
    let mut db = Database::new();
    let mut p = Procedure::default();
    p.name = "nightly".to_string();
    p.trigger = TriggerKind::Monitor;
    let p = create_procedure_record(&mut db, &mut p).unwrap();
    for keyword in ["*.tmp", "target"] {
        let mut rule = Ignore::default();
        rule.keyword = keyword.to_string();
        create_ignore_record(&mut db, &mut rule, &p).unwrap();
    }
    (db, p)
}

fn mission_for(p: &Procedure, name: &str) -> Mission {
    let mut m = Mission::default();
    m.name = name.to_string();
    m.procedure_id = p.procedure_id.clone();
    m
}

#[test]
fn a_new_mission_is_stored_and_known_and_paused() {
    let (mut db, p) = store_with_procedure();
    let mut registry = Registry::new();
    let mut data = mission_for(&p, "docs");
    data.status = MissionStatus::Running;
    let m = create_mission_at(&mut db, &mut registry, &mut data, "m-1".to_string(), at(5)).unwrap();
    assert_eq!(m, data);
    assert_eq!(m.mission_id, "m-1");
    assert_eq!(m.status, MissionStatus::Paused);
    assert_eq!(m.id, 1);
    assert_eq!((m.create_at, m.update_at), (at(5), at(5)));
    assert_eq!(db.missions, vec![m.clone()]);
    let held = registry.get("m-1").unwrap();
    assert_eq!(held.mission, m);
    assert_eq!(held.procedure, p);
    assert_eq!(
        held.ignores.iter().map(|r| r.keyword.as_str()).collect::<Vec<_>>(),
        vec!["*.tmp", "target"]
    );
}

#[test]
fn a_random_identity_is_drawn() {
    let (mut db, p) = store_with_procedure();
    let mut registry = Registry::new();
    let mut data = mission_for(&p, "docs");
    let given = data.mission_id.clone();
    let m = create_mission(&mut db, &mut registry, &mut data).unwrap();
    assert_ne!(m.mission_id, given);
    assert_eq!(m.mission_id.len(), 36);
    assert!(registry.knows(&m.mission_id));
    assert_eq!(db.missions.len(), 1);
}

#[test]
fn creation_is_refused_without_procedure_or_with_a_taken_identity() {
    let (mut db, p) = store_with_procedure();
    let mut registry = Registry::new();
    let mut orphan = Mission::default();
    let before = orphan.clone();
    assert_eq!(
        create_mission_at(&mut db, &mut registry, &mut orphan, "m".to_string(), at(1)),
        Err(EngineError::NotFound)
    );
    assert_eq!(orphan, before);
    let mut deleted = mission_for(&p, "x");
    deleted.is_deleted = true;
    assert_eq!(
        create_mission_at(&mut db, &mut registry, &mut deleted, "m".to_string(), at(1)),
        Err(EngineError::NotFound)
    );
    let mut first = mission_for(&p, "first");
    create_mission_at(&mut db, &mut registry, &mut first, "m".to_string(), at(1)).unwrap();
    let mut second = mission_for(&p, "second");
    assert_eq!(
        create_mission_at(&mut db, &mut registry, &mut second, "m".to_string(), at(2)),
        Err(EngineError::InvalidTransition)
    );
    assert_eq!(db.missions.len(), 1);
    assert_eq!(registry.len(), 1);
    delete_mission_record(&mut db, Some("m")).unwrap();
    delete_procedure_record(&mut db, Some(&p.procedure_id)).unwrap();
    let mut late = mission_for(&p, "late");
    assert_eq!(
        create_mission_at(&mut db, &mut registry, &mut late, "n".to_string(), at(3)),
        Err(EngineError::NotFound)
    );
}

#[test]
fn a_change_keeps_status_and_ordinal() {
    let (mut db, p) = store_with_procedure();
    let mut registry = Registry::new();
    let mut data = mission_for(&p, "docs");
    create_mission_at(&mut db, &mut registry, &mut data, "m".to_string(), at(1)).unwrap();
    registry.set_status("m", MissionStatus::Running).unwrap();
    update_mission_status(&mut db, MissionStatus::Running, "m").unwrap();
    delete_ignore_record(&mut db, None, Some(&p.procedure_id)).unwrap();
    let mut change = data.clone();
    change.name = "documents".to_string();
    change.status = MissionStatus::Paused;
    change.id = 99;
    let m = update_mission_at(&mut db, &mut registry, &mut change, at(9)).unwrap();
    assert_eq!(m.name, "documents");
    assert_eq!(m.status, MissionStatus::Running);
    assert_eq!(m.id, 1);
    assert_eq!(m.update_at, at(9));
    assert_eq!(db.missions.len(), 1);
    assert_eq!(db.missions[0].name, "documents");
    assert_eq!(db.missions[0].status, MissionStatus::Running);
    assert_eq!(db.missions[0].id, 1);
    let held = registry.get("m").unwrap();
    assert_eq!(held.mission, m);
    assert!(held.ignores.is_empty());
    let again = update_mission(&mut db, &mut registry, &mut change).unwrap();
    assert_eq!(again.name, "documents");
}

#[test]
fn a_change_of_an_unknown_or_deleted_mission_is_refused() {
    let (mut db, p) = store_with_procedure();
    let mut registry = Registry::new();
    let mut stranger = mission_for(&p, "x");
    let before = stranger.clone();
    assert_eq!(
        update_mission_at(&mut db, &mut registry, &mut stranger, at(1)),
        Err(EngineError::NotFound)
    );
    assert_eq!(stranger, before);
    let mut data = mission_for(&p, "docs");
    create_mission_at(&mut db, &mut registry, &mut data, "m".to_string(), at(1)).unwrap();
    let mut orphaned = data.clone();
    orphaned.procedure_id = "no such procedure".to_string();
    assert_eq!(
        update_mission_at(&mut db, &mut registry, &mut orphaned, at(2)),
        Err(EngineError::NotFound)
    );
    registry.remove("m", at(3)).unwrap();
    assert_eq!(
        update_mission_at(&mut db, &mut registry, &mut data, at(4)),
        Err(EngineError::NotFound)
    );
    assert_eq!(db.missions[0].name, "docs");
    assert_eq!(db.missions[0].update_at, at(1));
}

#[test]
fn a_change_needs_the_live_row_of_the_store() {
    let (mut db, p) = store_with_procedure();
    let mut registry = Registry::new();
    let mut data = mission_for(&p, "docs");
    create_mission_at(&mut db, &mut registry, &mut data, "m".to_string(), at(1)).unwrap();
    delete_mission_record_at(&mut db, Some("m"), at(2)).unwrap();
    let rows = db.missions.clone();
    let held = registry.get("m").unwrap();
    let mut change = data.clone();
    change.name = "documents".to_string();
    let before = change.clone();
    assert_eq!(
        update_mission_at(&mut db, &mut registry, &mut change, at(3)),
        Err(EngineError::NotFound)
    );
    assert_eq!(change, before);
    assert_eq!(db.missions, rows);
    assert_eq!(registry.get("m").unwrap(), held);
}

#[test]
fn deleting_marks_store_and_registry_and_disarms() {
    let (mut db, p) = store_with_procedure();
    let mut e = Engine::new();
    let mut data = mission_for(&p, "docs");
    create_mission_at(&mut db, &mut e.registry, &mut data, "m".to_string(), at(1)).unwrap();
    let mut other = mission_for(&p, "music");
    create_mission_at(&mut db, &mut e.registry, &mut other, "n".to_string(), at(1)).unwrap();
    e.arm("m", 250, at(2)).unwrap();
    e.arm("n", 250, at(2)).unwrap();
    assert_eq!(e.monitor.len(), 2);
    assert_eq!(delete_mission_at(&mut db, &mut e, "m", at(3)), Ok(()));
    assert!(db.missions[0].is_deleted);
    assert_eq!(db.missions[0].delete_at, at(3));
    assert!(!db.missions[1].is_deleted);
    let held = e.registry.get("m");
    assert!(held.is_none() || held.unwrap().mission.is_deleted);
    assert!(e.registry.list_missions(None, false).iter().all(|m| m.mission_id != "m"));
    assert!(e.registry.list_missions(None, false).iter().any(|m| m.mission_id == "n"));
    assert_eq!(e.monitor.len(), 1);
    assert!(!e.monitor.on_event("m", 10));
    assert!(e.monitor.on_event("n", 10));
    // a second time there is nothing to delete
    let rows = db.missions.clone();
    assert_eq!(delete_mission_at(&mut db, &mut e, "m", at(4)), Err(EngineError::NotFound));
    assert_eq!(delete_mission(&mut db, &mut e, "m"), Err(EngineError::NotFound));
    assert_eq!(delete_mission(&mut db, &mut e, "nobody"), Err(EngineError::NotFound));
    assert_eq!(db.missions, rows);
    assert_eq!(db.missions[0].delete_at, at(3));
    assert_eq!(delete_mission(&mut db, &mut e, "n"), Ok(()));
    assert!(db.missions[1].is_deleted);
    assert_eq!(e.monitor.len(), 0);
}

#[test]
fn deleting_reaches_a_mission_that_only_one_side_holds() {
    let (mut db, p) = store_with_procedure();
    let mut e = Engine::new();
    let mut data = mission_for(&p, "docs");
    create_mission_at(&mut db, &mut e.registry, &mut data, "m".to_string(), at(1)).unwrap();
    // the store has lost the row already
    delete_mission_record_at(&mut db, Some("m"), at(2)).unwrap();
    assert_eq!(delete_mission_at(&mut db, &mut e, "m", at(3)), Ok(()));
    assert_eq!(db.missions[0].delete_at, at(2));
    assert!(e.registry.list_missions(None, false).is_empty());
    // the registry never knew the row
    let mut fresh = Engine::new();
    let mut db = store_with_procedure().0;
    let mut lone = Mission::default();
    lone.procedure_id = db.procedures[0].procedure_id.clone();
    clean_recent::db::mission::create_mission_record_at(&mut db, &mut lone, "l".to_string(), at(1))
        .unwrap();
    assert_eq!(delete_mission_at(&mut db, &mut fresh, "l", at(5)), Ok(()));
    assert!(db.missions[0].is_deleted);
    assert_eq!(db.missions[0].delete_at, at(5));
}

#[test]
fn arming_and_pausing_reach_engine_and_store() {
    let (mut db, p) = store_with_procedure();
    let mut e = Engine::new();
    let mut data = mission_for(&p, "docs");
    create_mission_at(&mut db, &mut e.registry, &mut data, "m".to_string(), at(1)).unwrap();
    let mut other = mission_for(&p, "music");
    create_mission_at(&mut db, &mut e.registry, &mut other, "n".to_string(), at(1)).unwrap();
    let m = set_status(&mut db, &mut e, "m", MissionStatus::Running, 250, at(2)).unwrap();
    assert_eq!(m.status, MissionStatus::Running);
    assert_eq!(e.registry.get("m").unwrap().mission.status, MissionStatus::Running);
    assert_eq!(db.missions[0].status, MissionStatus::Running);
    assert_eq!(db.missions[1].status, MissionStatus::Paused);
    assert_eq!(e.monitor.len(), 1);
    let rows = db.missions.clone();
    assert_eq!(
        set_status(&mut db, &mut e, "m", MissionStatus::Running, 250, at(3)),
        Err(EngineError::InvalidTransition)
    );
    assert_eq!(
        set_status(&mut db, &mut e, "m", MissionStatus::Backuping, 250, at(3)),
        Err(EngineError::InvalidTransition)
    );
    assert_eq!(
        set_status(&mut db, &mut e, "nobody", MissionStatus::Backuping, 250, at(3)),
        Err(EngineError::NotFound)
    );
    assert_eq!(
        set_status(&mut db, &mut e, "nobody", MissionStatus::Running, 250, at(3)),
        Err(EngineError::NotFound)
    );
    assert_eq!(db.missions, rows);
    assert_eq!(e.monitor.len(), 1);
    let m = set_status(&mut db, &mut e, "m", MissionStatus::Paused, 250, at(4)).unwrap();
    assert_eq!(m.status, MissionStatus::Paused);
    assert_eq!(db.missions[0].status, MissionStatus::Paused);
    assert_eq!(e.monitor.len(), 0);
    assert_eq!(
        set_status(&mut db, &mut e, "m", MissionStatus::Paused, 250, at(5)),
        Err(EngineError::InvalidTransition)
    );
    delete_mission_at(&mut db, &mut e, "m", at(6)).unwrap();
    let rows = db.missions.clone();
    assert_eq!(
        set_status(&mut db, &mut e, "m", MissionStatus::Running, 250, at(7)),
        Err(EngineError::NotFound)
    );
    assert_eq!(db.missions, rows);
}

#[test]
fn a_cron_mission_without_a_schedule_stays_paused_everywhere() {
    let mut db = Database::new();
    let mut p = Procedure::default();
    p.trigger = TriggerKind::Cron;
    p.cron_expression = "every now and then".to_string();
    let p = create_procedure_record(&mut db, &mut p).unwrap();
    let mut e = Engine::new();
    let mut data = mission_for(&p, "docs");
    create_mission_at(&mut db, &mut e.registry, &mut data, "m".to_string(), at(1)).unwrap();
    let rows = db.missions.clone();
    assert_eq!(
        set_status(&mut db, &mut e, "m", MissionStatus::Running, 250, at(2)),
        Err(EngineError::InvalidCronExpression)
    );
    assert_eq!(db.missions, rows);
    assert_eq!(db.missions[0].status, MissionStatus::Paused);
    assert_eq!(e.registry.get("m").unwrap().mission.status, MissionStatus::Paused);
    assert_eq!(e.cron.len(), 0);
    // once the expression is mended and the mission has taken it over, it is armed
    let mut mended = p.clone();
    mended.cron_expression = "*/5 * * * * * *".to_string();
    update_procedure_record(&mut db, &mut mended).unwrap();
    let mut same = data.clone();
    update_mission_at(&mut db, &mut e.registry, &mut same, at(3)).unwrap();
    let m = set_status(&mut db, &mut e, "m", MissionStatus::Running, 250, at(4)).unwrap();
    assert_eq!(m.status, MissionStatus::Running);
    assert_eq!(db.missions[0].status, MissionStatus::Running);
    assert_eq!(e.cron.len(), 1);
}
