use clean_recent::db::mission::{create_mission_record_at, Mission, MissionStatus, PathType};
use clean_recent::db::procedure::{
    create_procedure_record_at, Procedure, RestrictPolicy, TriggerKind,
};
use clean_recent::db::Database;
use clean_recent::config::notify::{Notice, NotifyConfig};
use clean_recent::db::backup::{create_backup_record_at, delete_backup_record_at, Backup};
use clean_recent::db::integrity::{compact_all, Removed};
use clean_recent::engine::{
    compact, finish_execution, from_registry, retry_pause, Engine, EngineError, FIRST_PAUSE_MS,
    MAX_RETRIES,
};
use clean_recent::executor::{plan_backup, Finalize, SourceEntry, WriteResult};
use clean_recent::ident::new_id;
use clean_recent::registry::{ExecutionTicket, MissionSnapshot, RegistryError};
use clean_recent::scheduler::{CronScheduler, FireOutcome};
use clean_recent::time::Timestamp;

const T0: i64 = 1_700_000_000;

fn at(secs: i64) -> Timestamp {
    Timestamp { secs, nanos: 0 }
}

fn snapshot(id: &str, trigger: TriggerKind, expression: &str) -> MissionSnapshot {
    let mut procedure = Procedure::blank(format!("p-{}", id), at(0));
    procedure.trigger = trigger;
    procedure.cron_expression = expression.to_string();
    let mut mission = Mission::blank(id.to_string(), procedure.procedure_id.clone(), at(0));
    mission.src_path = format!("/src/{}", id);
    mission.dst_path = format!("/dst/{}", id);
    mission.path_type = PathType::Directory;
    MissionSnapshot { mission, procedure, ignores: Vec::new() }
}

fn engine_with(id: &str, trigger: TriggerKind, expression: &str) -> Engine {
    let mut e = Engine::new();
    e.registry.upsert(snapshot(id, trigger, expression)).unwrap();
    e
}

/// Writes the mission `id` of the engine and its procedure to the store.
fn stored(db: &mut Database, e: &Engine, id: &str) -> Mission {
    let held = e.registry.get(id).unwrap();
    let mut p = held.procedure.clone();
    let pid = p.procedure_id.clone();
    create_procedure_record_at(db, &mut p, pid, at(0));
    let mut m = held.mission.clone();
    create_mission_record_at(db, &mut m, id.to_string(), at(0)).unwrap()
}

fn run(db: &mut Database, e: &mut Engine, ticket: ExecutionTicket, result: WriteResult, now: i64) -> clean_recent::engine::Finished {
    let source = vec![SourceEntry { path: "a.txt".to_string(), is_dir: false, size: 1, vcs_ignored: false }];
    let plan = plan_backup(ticket.snapshot(), &source, &new_id());
    finish_execution(db, &mut e.registry, ticket, &plan, result, None, at(now))
}

#[test]
fn a_fire_during_a_run_is_skipped() {
    let mut db = Database::new();
    let mut e = engine_with("M", TriggerKind::Cron, "*/5 * * * * * *");
    e.arm("M", 3_000, at(T0)).unwrap();
    assert_eq!(e.cron.next_wakeup(), Some(at(T0 + 5)));
    // fire 1 starts a run
    let first = match e.fire_cron("M", at(T0 + 5)) {
        FireOutcome::Started(ticket, next) => {
            assert_eq!(next, Some(at(T0 + 10)));
            ticket
        },
        other => panic!("{:?}", other),
    };
    // fire 2 arrives while that run lasts
    match e.fire_cron("M", at(T0 + 10)) {
        FireOutcome::Skipped(next) => assert_eq!(next, Some(at(T0 + 15))),
        other => panic!("{:?}", other),
    }
    assert_eq!(db.backups.len(), 0);
    run(&mut db, &mut e, first, WriteResult::Written(10), T0 + 12);
    // fire 3 starts the second run
    let third = match e.fire_cron("M", at(T0 + 15)) {
        FireOutcome::Started(ticket, _) => ticket,
        other => panic!("{:?}", other),
    };
    run(&mut db, &mut e, third, WriteResult::Written(10), T0 + 16);
    assert_eq!(db.backups.len(), 2);
    assert!(db.backups.iter().all(|b| b.succeeded && b.mission_id == "M"));
    assert_eq!(e.registry.get("M").unwrap().mission.status, MissionStatus::Running);
    assert_eq!(e.registry.get("M").unwrap().mission.next_runtime, at(T0 + 20));
}

#[test]
fn arming_a_cron_mission_sets_its_timer() {
    let mut e = engine_with("a", TriggerKind::Cron, "0 * * * * * *");
    let m = e.arm("a", 3_000, at(T0)).unwrap();
    assert_eq!(m.status, MissionStatus::Running);
    assert_eq!(e.cron.len(), 1);
    assert_eq!(e.monitor.len(), 0);
    assert_eq!(e.cron.next_wakeup(), Some(at(T0 + 40)));
    assert!(e.cron.due(at(T0 + 39)).is_empty());
    assert_eq!(e.cron.due(at(T0 + 40)), vec!["a"]);
    assert_eq!(e.arm("a", 3_000, at(T0)), Err(EngineError::InvalidTransition));
    assert_eq!(e.arm("nobody", 3_000, at(T0)), Err(EngineError::NotFound));
}

#[test]
fn a_malformed_expression_leaves_the_mission_paused() {
    let mut e = engine_with("a", TriggerKind::Cron, "every five seconds");
    assert_eq!(e.arm("a", 3_000, at(T0)), Err(EngineError::InvalidCronExpression));
    assert_eq!(e.registry.get("a").unwrap().mission.status, MissionStatus::Paused);
    assert_eq!(e.cron.len(), 0);
    assert_eq!(e.cron.next_wakeup(), None);
    let mut e = engine_with("b", TriggerKind::Cron, "");
    assert_eq!(e.arm("b", 3_000, at(T0)), Err(EngineError::InvalidCronExpression));
}

#[test]
fn arming_a_monitor_mission_sets_its_watch() {
    let mut e = engine_with("a", TriggerKind::Monitor, "not read at all");
    e.arm("a", 250, at(T0)).unwrap();
    assert_eq!(e.cron.len(), 0);
    assert_eq!(e.monitor.len(), 1);
    assert!(e.monitor.on_event("a", 1_000));
    assert_eq!(e.monitor.next_deadline(), Some(1_250));
    let mut e = engine_with("r", TriggerKind::Reserved, "");
    e.arm("r", 250, at(T0)).unwrap();
    assert_eq!((e.cron.len(), e.monitor.len()), (0, 0));
    assert_eq!(e.registry.get("r").unwrap().mission.status, MissionStatus::Running);
}

#[test]
fn pausing_and_deleting_take_timer_and_watch_away() {
    let mut e = engine_with("c", TriggerKind::Cron, "* * * * * * *");
    e.registry.upsert(snapshot("w", TriggerKind::Monitor, "")).unwrap();
    e.arm("c", 1, at(T0)).unwrap();
    e.arm("w", 1, at(T0)).unwrap();
    assert_eq!((e.cron.len(), e.monitor.len()), (1, 1));
    assert_eq!(e.pause("c").unwrap().status, MissionStatus::Paused);
    assert_eq!((e.cron.len(), e.monitor.len()), (0, 1));
    assert_eq!(e.pause("c"), Err(EngineError::InvalidTransition));
    assert_eq!(e.pause("nobody"), Err(EngineError::NotFound));
    let m = e.delete_mission("w", at(T0 + 1)).unwrap();
    assert!(m.is_deleted);
    assert_eq!((e.cron.len(), e.monitor.len()), (0, 0));
    assert_eq!(e.delete_mission("w", at(T0 + 2)), Err(EngineError::NotFound));
    assert_eq!(e.arm("w", 1, at(T0 + 3)), Err(EngineError::NotFound));
}

#[test]
fn a_run_cannot_be_paused_but_its_mission_can_be_deleted() {
    let mut db = Database::new();
    let mut e = engine_with("c", TriggerKind::Cron, "* * * * * * *");
    e.arm("c", 1, at(T0)).unwrap();
    let ticket = match e.fire_cron("c", at(T0 + 1)) {
        FireOutcome::Started(t, _) => t,
        other => panic!("{:?}", other),
    };
    assert_eq!(e.pause("c"), Err(EngineError::InvalidTransition));
    assert_eq!(e.cron.len(), 1);
    e.delete_mission("c", at(T0 + 2)).unwrap();
    assert_eq!(e.cron.len(), 0);
    // the run goes on and gives its ticket back; its timer is not set again
    let done = run(&mut db, &mut e, ticket, WriteResult::Written(1), T0 + 3);
    assert_eq!(done.mission.unwrap().status, MissionStatus::Running);
    assert_eq!(e.cron.len(), 0);
    assert!(matches!(e.fire_cron("c", at(T0 + 4)), FireOutcome::Unknown));
}

#[test]
fn firing_without_a_job_or_for_a_paused_mission() {
    let mut e = engine_with("c", TriggerKind::Cron, "* * * * * * *");
    assert!(matches!(e.fire_cron("c", at(T0)), FireOutcome::Unknown));
    e.arm("c", 1, at(T0)).unwrap();
    // paused behind the back of the scheduler
    e.registry.set_status("c", MissionStatus::Paused).unwrap();
    assert!(matches!(
        e.fire_cron("c", at(T0 + 1)),
        FireOutcome::Cancelled(RegistryError::InvalidTransition)
    ));
    assert_eq!(e.cron.len(), 0);
}

#[test]
fn register_and_cancel() {
    let mut c = CronScheduler::new();
    assert_eq!(c.register("a", "0 0 0 * * ? *", at(T0)), Ok(Some(at(1_700_006_400))));
    assert_eq!(c.register("b", "0 0 0 1 1 ? 2023", at(T0)), Ok(None));
    assert!(c.register("c", "nonsense", at(T0)).is_err());
    assert_eq!(c.len(), 2);
    // registering again replaces the job
    assert_eq!(c.register("a", "0 * * * * * *", at(T0)), Ok(Some(at(T0 + 40))));
    assert_eq!(c.len(), 2);
    assert_eq!(c.next_wakeup(), Some(at(T0 + 40)));
    assert!(c.register("a", "nonsense", at(T0)).is_err());
    assert_eq!(c.next_wakeup(), Some(at(T0 + 40)));
    assert!(c.cancel("a"));
    assert!(!c.cancel("a"));
    assert_eq!(c.next_wakeup(), None);
    assert_eq!(c.len(), 1);
}

#[test]
fn the_end_of_a_run_leaves_a_record_and_prunes() {
    let mut db = Database::new();
    let mut e = Engine::new();
    let mut s = snapshot("m", TriggerKind::Cron, "* * * * * * *");
    s.procedure.restrict = RestrictPolicy::BySize;
    s.procedure.restrict_size = 25;
    e.registry.upsert(s).unwrap();
    e.arm("m", 1, at(T0)).unwrap();
    let mut sizes = Vec::new();
    for k in 0..4 {
        let ticket = match e.fire_cron("m", at(T0 + 10 * k)) {
            FireOutcome::Started(t, _) => t,
            other => panic!("{:?}", other),
        };
        let done = run(&mut db, &mut e, ticket, WriteResult::Written(10), T0 + 10 * k + 1);
        assert_eq!(done.finalize, Finalize::Commit);
        assert_eq!(done.record.id as i64, k + 1);
        assert_eq!(done.record.create_at, at(T0 + 10 * k + 1));
        assert!(done.record.save_path.starts_with("/dst/m/"));
        sizes.push(done.pruned);
    }
    assert_eq!(sizes, vec![0, 0, 1, 1]);
    assert_eq!(db.backups.len(), 4);
    assert_eq!(db.backups.iter().map(|b| b.is_deleted).collect::<Vec<_>>(), vec![true, true, false, false]);
}

#[test]
fn a_failed_run_is_recorded_and_prunes_nothing() {
    let mut db = Database::new();
    let mut e = Engine::new();
    let mut s = snapshot("m", TriggerKind::Cron, "* * * * * * *");
    s.procedure.restrict = RestrictPolicy::BySize;
    s.procedure.restrict_size = 0;
    e.registry.upsert(s).unwrap();
    e.arm("m", 1, at(T0)).unwrap();
    let ticket = match e.fire_cron("m", at(T0)) {
        FireOutcome::Started(t, _) => t,
        other => panic!("{:?}", other),
    };
    run(&mut db, &mut e, ticket, WriteResult::Written(10), T0 + 1);
    assert!(db.backups[0].is_deleted);
    let ticket = match e.fire_cron("m", at(T0 + 2)) {
        FireOutcome::Started(t, _) => t,
        other => panic!("{:?}", other),
    };
    let done = run(&mut db, &mut e, ticket, WriteResult::Failed("permission denied".to_string()), T0 + 3);
    assert_eq!(done.finalize, Finalize::Discard);
    assert_eq!(done.pruned, 0);
    assert!(!done.record.succeeded);
    assert_eq!(done.record.message, "permission denied");
    assert!(!db.backups[1].is_deleted);
    // the mission is armed again and the next trigger starts a run
    assert_eq!(done.mission.unwrap().status, MissionStatus::Running);
    assert!(matches!(e.fire_cron("m", at(T0 + 4)), FireOutcome::Started(_, _)));
}

#[test]
fn retries_are_bounded_and_back_off() {
    assert_eq!(FIRST_PAUSE_MS, 100);
    assert_eq!(MAX_RETRIES, 5);
    let pauses: Vec<_> = (0..7).map(retry_pause).collect();
    assert_eq!(
        pauses,
        vec![
            Ok(100),
            Ok(200),
            Ok(400),
            Ok(800),
            Ok(1600),
            Err(EngineError::StorageFailure),
            Err(EngineError::StorageFailure)
        ]
    );
    assert_eq!(retry_pause(u32::MAX), Err(EngineError::StorageFailure));
    assert_eq!(from_registry(RegistryError::NotFound), EngineError::NotFound);
    assert_eq!(from_registry(RegistryError::InvalidTransition), EngineError::InvalidTransition);
}

#[test]
fn a_lost_watch_is_surfaced_once() {
    let mut e = engine_with("w", TriggerKind::Monitor, "");
    e.arm("w", 10, at(T0)).unwrap();
    assert_eq!(e.watch_lost("nobody"), Ok(()));
    assert_eq!(e.watch_lost("w"), Err(EngineError::WatchLost));
    assert_eq!(e.watch_lost("w"), Ok(()));
    // the mission stays armed, but unwatched
    assert_eq!(e.registry.get("w").unwrap().mission.status, MissionStatus::Running);
    assert!(!e.monitor.on_event("w", 5));
    // pausing and arming anew sets a fresh watch
    e.pause("w").unwrap();
    e.arm("w", 10, at(T0 + 1)).unwrap();
    assert!(e.monitor.on_event("w", 5));
}

#[test]
fn notices_pass_the_gates_of_the_settings() {
    let all = NotifyConfig { is_granted: true, enable: true, mask: 3 };
    assert!(all.allows(Notice::Created));
    assert!(all.allows(Notice::Failed));
    assert!(!NotifyConfig { is_granted: false, ..all }.allows(Notice::Created));
    assert!(!NotifyConfig { enable: false, ..all }.allows(Notice::Failed));
    assert!(NotifyConfig { mask: 1, ..all }.allows(Notice::Created));
    assert!(!NotifyConfig { mask: 1, ..all }.allows(Notice::Failed));
    assert!(!NotifyConfig { mask: 2, ..all }.allows(Notice::Created));
    assert!(NotifyConfig { mask: 2, ..all }.allows(Notice::Failed));
    assert!(!NotifyConfig { mask: 4, ..all }.allows(Notice::Failed));
    assert!(NotifyConfig { mask: u32::MAX, ..all }.allows(Notice::Failed));
    assert!(!NotifyConfig::default().allows(Notice::Created));

    let mut db = Database::new();
    let mut e = engine_with("m", TriggerKind::Cron, "* * * * * * *");
    e.arm("m", 1, at(T0)).unwrap();
    let ticket = match e.fire_cron("m", at(T0)) {
        FireOutcome::Started(t, _) => t,
        other => panic!("{:?}", other),
    };
    let good = run(&mut db, &mut e, ticket, WriteResult::Written(1), T0 + 1);
    assert_eq!(good.failure, None);
    assert_eq!(good.notice(&all), Some(Notice::Created));
    assert_eq!(good.notice(&NotifyConfig { mask: 2, ..all }), None);
    let ticket = match e.fire_cron("m", at(T0 + 2)) {
        FireOutcome::Started(t, _) => t,
        other => panic!("{:?}", other),
    };
    let bad = run(&mut db, &mut e, ticket, WriteResult::Failed("x".to_string()), T0 + 3);
    assert_eq!(bad.failure, Some(EngineError::IoFailure));
    assert_eq!(bad.notice(&all), Some(Notice::Failed));
    assert_eq!(bad.notice(&NotifyConfig { mask: 1, ..all }), None);
    assert_eq!(bad.notice(&NotifyConfig::default()), None);
}

#[test]
fn compaction_of_store_and_registry() {
    let mut db = Database::new();
    let mut e = engine_with("keep", TriggerKind::Cron, "* * * * * * *");
    e.registry.upsert(snapshot("gone", TriggerKind::Cron, "* * * * * * *")).unwrap();
    e.registry.upsert(snapshot("busy", TriggerKind::Cron, "* * * * * * *")).unwrap();
    e.arm("busy", 1, at(T0)).unwrap();
    let ticket = match e.fire_cron("busy", at(T0)) {
        FireOutcome::Started(t, _) => t,
        other => panic!("{:?}", other),
    };
    e.delete_mission("gone", at(T0)).unwrap();
    e.delete_mission("busy", at(T0)).unwrap();
    let owner = stored(&mut db, &e, "keep");
    for id in ["b1", "b2", "b3"] {
        let mut b = Backup::default();
        create_backup_record_at(&mut db, &mut b, &owner, id.to_string(), at(T0)).unwrap();
    }
    delete_backup_record_at(&mut db, Some("b2"), None, at(T0)).unwrap();
    let r = compact(&mut db, &mut e.registry);
    assert_eq!(r.rows, Removed { missions: 0, procedures: 0, ignores: 0, backups: 1 });
    assert_eq!(r.entries, 1);
    assert_eq!(db.backups.iter().map(|b| (b.id, b.backup_id.as_str())).collect::<Vec<_>>(), vec![(1, "b1"), (2, "b3")]);
    let left = e.registry.list_missions(None, true);
    assert_eq!(
        left.iter().map(|m| (m.id, m.mission_id.as_str())).collect::<Vec<_>>(),
        vec![(1, "keep"), (2, "busy")]
    );
    let done = run(&mut db, &mut e, ticket, WriteResult::Written(1), T0 + 1);
    assert!(done.mission.is_ok());
    assert_eq!(compact(&mut db, &mut e.registry).entries, 1);
    assert_eq!(compact_all(&mut db), Removed { missions: 0, procedures: 0, ignores: 0, backups: 0 });
}

#[test]
fn the_end_of_a_run_is_written_to_the_row_of_the_mission() {
    let mut db = Database::new();
    let mut e = engine_with("M", TriggerKind::Cron, "*/5 * * * * * *");
    e.registry.upsert(snapshot("other", TriggerKind::Cron, "*/5 * * * * * *")).unwrap();
    let row = stored(&mut db, &e, "M");
    let other = stored(&mut db, &e, "other");
    assert_eq!(row.status, MissionStatus::Paused);
    e.arm("M", 3_000, at(T0)).unwrap();
    let ticket = match e.fire_cron("M", at(T0 + 5)) {
        FireOutcome::Started(ticket, _) => ticket,
        other => panic!("{:?}", other),
    };
    let done = run(&mut db, &mut e, ticket, WriteResult::Written(10), T0 + 6);
    let held = done.mission.unwrap();
    assert_eq!(held.status, MissionStatus::Running);
    assert_eq!(held.next_runtime, at(T0 + 10));
    assert_eq!(db.missions[0].status, MissionStatus::Running);
    assert_eq!(db.missions[0].next_runtime, at(T0 + 10));
    assert_eq!(db.missions[0].last_trigger, held.last_trigger);
    let mut expected = row.clone();
    expected.status = held.status;
    expected.next_runtime = held.next_runtime;
    expected.last_trigger = held.last_trigger;
    assert_eq!(db.missions[0], expected);
    assert_eq!(db.missions[1], other);
    assert_eq!(db.backups.len(), 1);
    // after a failure the row says that the mission is armed again, too
    db.missions[0].status = MissionStatus::Backuping;
    let ticket = match e.fire_cron("M", at(T0 + 10)) {
        FireOutcome::Started(ticket, _) => ticket,
        other => panic!("{:?}", other),
    };
    run(&mut db, &mut e, ticket, WriteResult::Failed("disk full".to_string()), T0 + 11);
    assert_eq!(db.missions[0].status, MissionStatus::Running);
    assert_eq!(db.missions[0].next_runtime, at(T0 + 15));
    assert_eq!(db.backups.len(), 2);
}

#[test]
fn a_ticket_that_the_registry_refuses_leaves_the_missions_alone() {
    let mut db = Database::new();
    let mut e = engine_with("M", TriggerKind::Cron, "*/5 * * * * * *");
    stored(&mut db, &e, "M");
    e.arm("M", 3_000, at(T0)).unwrap();
    let ticket = match e.fire_cron("M", at(T0 + 5)) {
        FireOutcome::Started(ticket, _) => ticket,
        other => panic!("{:?}", other),
    };
    let rows = db.missions.clone();
    let mut stranger = Engine::new();
    let done = run(&mut db, &mut stranger, ticket, WriteResult::Written(10), T0 + 6);
    assert_eq!(done.mission, Err(RegistryError::NotFound));
    assert_eq!(db.missions, rows);
    assert_eq!(db.backups.len(), 1);
}

#[test]
fn a_run_of_a_deleted_mission_leaves_its_record() {
    let mut db = Database::new();
    let mut e = engine_with("M", TriggerKind::Cron, "*/5 * * * * * *");
    stored(&mut db, &e, "M");
    e.arm("M", 3_000, at(T0)).unwrap();
    let ticket = match e.fire_cron("M", at(T0 + 5)) {
        FireOutcome::Started(ticket, _) => ticket,
        other => panic!("{:?}", other),
    };
    clean_recent::missions::delete_mission_at(&mut db, &mut e, "M", at(T0 + 6)).unwrap();
    let rows = db.missions.clone();
    let done = run(&mut db, &mut e, ticket, WriteResult::Written(10), T0 + 7);
    assert!(done.record.succeeded);
    assert_eq!(db.backups, vec![done.record.clone()]);
    assert_eq!(db.backups[0].mission_id, "M");
    // the row that is marked as deleted is not rewritten
    assert_eq!(db.missions, rows);
}
