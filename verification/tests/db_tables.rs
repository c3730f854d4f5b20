use clean_recent::db::backup::{
    clean_record as clean_backups, clear_backup_record, create_backup_record,
    create_backup_record_at, delete_backup_record, delete_backup_record_at, query_backup_record,
    Backup,
};
use clean_recent::db::ignore::{
    clean_record as clean_ignores, clear_ignore_record, create_ignore_record,
    create_ignore_record_at, delete_ignore_record, delete_ignore_record_at,
    get_procedure_ignores, query_ignore_record, update_ignore_record, update_ignore_record_at,
    Ignore,
};
use clean_recent::db::mission::{
    clean_record as clean_missions, clear_mission_record, create_mission_record,
    create_mission_record_at, delete_mission_record, delete_mission_record_at,
    get_mission_related_record, live_mission_exists, mission_refers_to, query_mission_record,
    update_mission_record, update_mission_record_at, update_mission_status,
    update_mission_time, Mission, MissionStatus, PathType, TimeLabel,
};
use clean_recent::db::procedure::{
    clean_record as clean_procedures, clear_procedure_record, create_procedure_record,
    create_procedure_record_at, delete_procedure_record, delete_procedure_record_at,
    live_procedure_exists, query_procedure_record, update_procedure_record,
    update_procedure_record_at, CompressFormat, IgnoreMethod, Procedure, RestrictPolicy,
    TriggerKind,
};
use clean_recent::db::{Database, DbError};
use clean_recent::time::Timestamp;

fn at(secs: i64) -> Timestamp {
    Timestamp { secs, nanos: 0 }
}

fn is_uuid(s: &str) -> bool {
    let b = s.as_bytes();
    b.len() == 36
        && b.iter().enumerate().all(|(i, c)| {
            if i == 8 || i == 13 || i == 18 || i == 23 {
                *c == b'-'
            } else {
                c.is_ascii_digit() || (b'a'..=b'f').contains(c)
            }
        })
}

/// A store with one procedure, watched rather than timed, under the
/// identity "p".
fn store() -> Database {
    let mut db = Database::new();
    let mut p = Procedure::default();
    p.trigger = TriggerKind::Monitor;
    create_procedure_record_at(&mut db, &mut p, "p".to_string(), at(0));
    db
}

/// A mission of the procedure "p".
fn mission_named(name: &str) -> Mission {
    let mut m = Mission::default();
    m.name = name.to_string();
    m.procedure_id = "p".to_string();
    m
}

/// Adds a mission of the procedure "p" under the identity `name`.
fn add_mission(db: &mut Database, name: &str) -> Mission {
    let mut m = mission_named(name);
    create_mission_record_at(db, &mut m, name.to_string(), at(1)).unwrap()
}

#[test]
fn default_mission_is_blank() {
    let m = Mission::default();
    assert_eq!(m.id, 0);
    assert!(is_uuid(&m.mission_id));
    assert!(is_uuid(&m.procedure_id));
    assert_ne!(m.mission_id, m.procedure_id);
    assert_eq!(m.name, "");
    assert_eq!(m.status, MissionStatus::Paused);
    assert_eq!(m.path_type, PathType::Unknown);
    assert!(!m.is_deleted);
    assert_eq!(m.create_at, m.update_at);
    assert_eq!(m.create_at, m.next_runtime);
    assert_eq!(m.create_at, m.delete_at);
}

#[test]
fn default_procedure_has_the_documented_settings() {
    let p = Procedure::default();
    assert!(is_uuid(&p.procedure_id));
    assert!(!p.has_ignores);
    assert_eq!(p.ignore_method, IgnoreMethod::Custom);
    assert!(!p.is_compress);
    assert_eq!(p.compress_format, CompressFormat::Zip);
    assert_eq!(p.trigger, TriggerKind::Cron);
    assert_eq!(p.cron_expression, "");
    assert_eq!(p.restrict, RestrictPolicy::Unrestricted);
    assert_eq!(p.restrict_days, 3);
    assert_eq!(p.restrict_size, 1024);
    assert!(!p.is_deleted);
}

#[test]
fn default_ignore_and_backup_are_blank() {
    let i = Ignore::default();
    assert!(is_uuid(&i.ignore_id));
    assert!(is_uuid(&i.procedure_id));
    assert_eq!(i.keyword, "");
    assert!(!i.is_deleted);
    let b = Backup::default();
    assert!(is_uuid(&b.backup_id));
    assert!(is_uuid(&b.mission_id));
    assert_eq!(b.save_path, "");
    assert_eq!(b.backup_size, 0);
    assert!(!b.succeeded);
    assert_eq!(b.message, "");
}

#[test]
fn codes_round_trip() {
    for code in 0..3i16 {
        assert_eq!(MissionStatus::from_code(code).unwrap().code(), code);
        assert_eq!(PathType::from_code(code).unwrap().code(), code);
        assert_eq!(IgnoreMethod::from_code(code).unwrap().code(), code);
        assert_eq!(TriggerKind::from_code(code).unwrap().code(), code);
    }
    for code in 0..6i16 {
        assert_eq!(CompressFormat::from_code(code).unwrap().code(), code);
    }
    for code in 0..4i16 {
        assert_eq!(RestrictPolicy::from_code(code).unwrap().code(), code);
    }
    assert_eq!(MissionStatus::from_code(2), Some(MissionStatus::Backuping));
    assert_eq!(MissionStatus::from_code(3), None);
    assert_eq!(MissionStatus::from_code(-1), None);
    assert_eq!(PathType::from_code(2), Some(PathType::Directory));
    assert_eq!(PathType::from_code(7), None);
    assert_eq!(IgnoreMethod::from_code(2), Some(IgnoreMethod::VcsIgnore));
    assert_eq!(IgnoreMethod::from_code(3), None);
    assert_eq!(CompressFormat::from_code(5), Some(CompressFormat::SevenZip));
    assert_eq!(CompressFormat::from_code(6), None);
    assert_eq!(TriggerKind::from_code(2), Some(TriggerKind::Monitor));
    assert_eq!(TriggerKind::from_code(3), None);
    assert_eq!(RestrictPolicy::from_code(3), Some(RestrictPolicy::ByBoth));
    assert_eq!(RestrictPolicy::from_code(4), None);
}

#[test]
fn create_mission_numbers_and_stamps_the_row() {
    let mut db = store();
    let mut first = mission_named("first");
    let given_id = first.mission_id.clone();
    let stored = create_mission_record(&mut db, &mut first).unwrap();
    assert_eq!(stored, first);
    assert_eq!(stored.id, 1);
    assert!(is_uuid(&stored.mission_id));
    assert_ne!(stored.mission_id, given_id);
    assert_eq!(stored.create_at, stored.update_at);
    assert_eq!(stored.name, "first");
    let mut second = mission_named("second");
    let stored = create_mission_record(&mut db, &mut second).unwrap();
    assert_eq!(stored.id, 2);
    assert_eq!(db.missions.len(), 2);
    assert_eq!(db.missions[1], stored);
    assert_eq!(db.procedures.len(), 1);
}

#[test]
fn create_mission_at_is_exact() {
    let mut db = store();
    let mut m = mission_named("m");
    let stored = create_mission_record_at(&mut db, &mut m, "id-1".to_string(), at(77)).unwrap();
    assert_eq!(stored.id, 1);
    assert_eq!(stored.mission_id, "id-1");
    assert_eq!(stored.create_at, at(77));
    assert_eq!(stored.update_at, at(77));
    assert_eq!(m, stored);
    assert_eq!(db.missions, vec![stored]);
}

#[test]
fn a_new_mission_is_paused_whatever_was_handed_in() {
    for status in [MissionStatus::Paused, MissionStatus::Running, MissionStatus::Backuping] {
        let mut db = store();
        let mut m = mission_named("m");
        m.status = status;
        let stored = create_mission_record_at(&mut db, &mut m, "m".to_string(), at(1)).unwrap();
        assert_eq!(stored.status, MissionStatus::Paused);
        assert_eq!(m.status, MissionStatus::Paused);
        assert_eq!(db.missions[0].status, MissionStatus::Paused);
    }
    let mut db = store();
    let mut m = mission_named("m");
    m.status = MissionStatus::Backuping;
    let stored = create_mission_record(&mut db, &mut m).unwrap();
    assert_eq!(stored.status, MissionStatus::Paused);
}

#[test]
fn a_mission_needs_a_live_procedure() {
    let mut db = Database::new();
    let mut m = mission_named("m");
    let given = m.clone();
    assert_eq!(
        create_mission_record_at(&mut db, &mut m, "m".to_string(), at(1)),
        Err(DbError::NotFound)
    );
    assert_eq!(m, given);
    assert!(db.missions.is_empty());
    assert_eq!(create_mission_record(&mut db, &mut m), Err(DbError::NotFound));
    let mut db = store();
    assert_eq!(delete_procedure_record_at(&mut db, Some("p"), at(2)), Ok(1));
    assert_eq!(
        create_mission_record_at(&mut db, &mut m, "m".to_string(), at(3)),
        Err(DbError::NotFound)
    );
    assert!(db.missions.is_empty());
}

#[test]
fn ordinal_counts_deleted_rows_too() {
    let mut db = store();
    add_mission(&mut db, "a");
    assert_eq!(delete_mission_record_at(&mut db, Some("a"), at(2)), Ok(1));
    let mut b = mission_named("b");
    let stored = create_mission_record_at(&mut db, &mut b, "b".to_string(), at(3)).unwrap();
    assert_eq!(stored.id, 2);
}

#[test]
fn update_mission_overwrites_and_keeps_ordinal_and_status() {
    let mut db = store();
    let a = add_mission(&mut db, "a");
    let b = add_mission(&mut db, "b");
    let mut change = b.clone();
    change.id = 99;
    change.name = "renamed".to_string();
    change.status = MissionStatus::Backuping;
    change.is_deleted = true;
    change.delete_at = at(4);
    let row = update_mission_record_at(&mut db, &mut change, at(5)).unwrap();
    assert_eq!(change.update_at, at(5));
    assert_eq!(row.id, 2);
    assert_eq!(row.name, "renamed");
    assert_eq!(row.status, MissionStatus::Paused);
    assert!(!row.is_deleted);
    assert_eq!(row.delete_at, b.delete_at);
    assert_eq!(row.update_at, at(5));
    assert_eq!(db.missions[1], row);
    assert_eq!(db.missions[0], a);
}

#[test]
fn update_keeps_the_status_of_an_armed_mission() {
    let mut db = store();
    let a = add_mission(&mut db, "a");
    update_mission_status(&mut db, MissionStatus::Running, "a").unwrap();
    let mut change = a.clone();
    change.name = "renamed".to_string();
    let row = update_mission_record_at(&mut db, &mut change, at(5)).unwrap();
    assert_eq!(row.status, MissionStatus::Running);
    assert_eq!(db.missions[0].status, MissionStatus::Running);
    assert_eq!(db.missions[0].name, "renamed");
}

#[test]
fn update_of_a_mission_needs_a_live_procedure() {
    let mut db = store();
    let a = add_mission(&mut db, "a");
    let before = db.missions.clone();
    let mut change = a.clone();
    change.procedure_id = "nobody".to_string();
    let given = change.clone();
    assert_eq!(update_mission_record_at(&mut db, &mut change, at(5)), Err(DbError::NotFound));
    assert_eq!(change, given);
    assert_eq!(db.missions, before);
}

#[test]
fn update_of_an_unknown_mission_is_not_found() {
    let mut db = store();
    add_mission(&mut db, "a");
    let before = db.missions.clone();
    let mut stranger = mission_named("x");
    assert_eq!(update_mission_record(&mut db, &mut stranger), Err(DbError::NotFound));
    assert_eq!(db.missions, before);
}

#[test]
fn a_deleted_mission_is_not_rewritten() {
    let mut db = store();
    let a = add_mission(&mut db, "a");
    delete_mission_record_at(&mut db, Some("a"), at(2)).unwrap();
    let before = db.missions.clone();
    assert_eq!(
        update_mission_status(&mut db, MissionStatus::Running, "a"),
        Err(DbError::NotFound)
    );
    let mut change = a.clone();
    change.name = "renamed".to_string();
    assert_eq!(update_mission_record_at(&mut db, &mut change, at(3)), Err(DbError::NotFound));
    assert_eq!(update_mission_time(&mut db, "next", &at(100), "a"), Err(DbError::NotFound));
    assert_eq!(update_mission_time(&mut db, "last", &at(100), "a"), Err(DbError::NotFound));
    assert_eq!(db.missions, before);
}

#[test]
fn a_mission_is_armed_and_paused() {
    let mut db = store();
    add_mission(&mut db, "a");
    add_mission(&mut db, "b");
    let row = update_mission_status(&mut db, MissionStatus::Running, "a").unwrap();
    assert_eq!(row.status, MissionStatus::Running);
    assert_eq!(db.missions[0], row);
    assert_eq!(db.missions[1].status, MissionStatus::Paused);
    let row = update_mission_status(&mut db, MissionStatus::Paused, "a").unwrap();
    assert_eq!(row.status, MissionStatus::Paused);
    assert_eq!(db.missions[0], row);
}

#[test]
fn other_changes_of_status_are_refused() {
    let mut db = store();
    add_mission(&mut db, "a");
    let before = db.missions.clone();
    for target in [MissionStatus::Paused, MissionStatus::Backuping] {
        assert_eq!(
            update_mission_status(&mut db, target, "a"),
            Err(DbError::InvalidTransition)
        );
        assert_eq!(db.missions, before);
    }
    update_mission_status(&mut db, MissionStatus::Running, "a").unwrap();
    let before = db.missions.clone();
    for target in [MissionStatus::Running, MissionStatus::Backuping] {
        assert_eq!(
            update_mission_status(&mut db, target, "a"),
            Err(DbError::InvalidTransition)
        );
        assert_eq!(db.missions, before);
    }
    db.missions[0].status = MissionStatus::Backuping;
    let before = db.missions.clone();
    for target in [MissionStatus::Paused, MissionStatus::Running, MissionStatus::Backuping] {
        assert_eq!(
            update_mission_status(&mut db, target, "a"),
            Err(DbError::InvalidTransition)
        );
        assert_eq!(db.missions, before);
    }
    assert_eq!(
        update_mission_status(&mut db, MissionStatus::Paused, "nobody"),
        Err(DbError::NotFound)
    );
    assert_eq!(db.missions, before);
}

#[test]
fn a_cron_mission_is_armed_only_with_a_schedule() {
    let mut db = Database::new();
    let mut p = Procedure::default();
    p.trigger = TriggerKind::Cron;
    p.cron_expression = "not a schedule".to_string();
    let p = create_procedure_record_at(&mut db, &mut p, "p".to_string(), at(0));
    add_mission(&mut db, "a");
    let before = db.missions.clone();
    assert_eq!(
        update_mission_status(&mut db, MissionStatus::Running, "a"),
        Err(DbError::InvalidCronExpression)
    );
    assert_eq!(db.missions, before);
    assert_eq!(db.missions[0].status, MissionStatus::Paused);
    let mut mended = p.clone();
    mended.cron_expression = "0 0 3 * * ? *".to_string();
    update_procedure_record_at(&mut db, &mut mended, at(2)).unwrap();
    let row = update_mission_status(&mut db, MissionStatus::Running, "a").unwrap();
    assert_eq!(row.status, MissionStatus::Running);
}

#[test]
fn a_mission_without_its_procedure_is_not_armed() {
    let mut db = store();
    add_mission(&mut db, "a");
    db.procedures[0].is_deleted = true;
    let before = db.missions.clone();
    assert_eq!(
        update_mission_status(&mut db, MissionStatus::Running, "a"),
        Err(DbError::NotFound)
    );
    assert_eq!(db.missions, before);
}

#[test]
fn update_mission_time_by_label() {
    let mut db = store();
    let a = add_mission(&mut db, "a");
    let row = update_mission_time(&mut db, "next", &at(100), "a").unwrap();
    assert_eq!(row.next_runtime, at(100));
    assert_eq!(row.last_trigger, a.last_trigger);
    let row = update_mission_time(&mut db, "last", &at(200), "a").unwrap();
    assert_eq!(row.next_runtime, at(100));
    assert_eq!(row.last_trigger, at(200));
    let before = db.missions.clone();
    assert_eq!(update_mission_time(&mut db, "soon", &at(300), "a"), Err(DbError::NotFound));
    assert_eq!(db.missions, before);
    assert_eq!(update_mission_time(&mut db, "next", &at(300), "b"), Err(DbError::NotFound));
    assert_eq!(TimeLabel::parse("next"), Some(TimeLabel::Next));
    assert_eq!(TimeLabel::parse("last"), Some(TimeLabel::Last));
    assert_eq!(TimeLabel::parse("Next"), None);
    assert_eq!(TimeLabel::parse(""), None);
}

#[test]
fn query_mission_leaves_deleted_rows_out() {
    let mut db = store();
    for name in ["a", "b", "c"] {
        add_mission(&mut db, name);
    }
    delete_mission_record_at(&mut db, Some("b"), at(2)).unwrap();
    let all = query_mission_record(&db, None).unwrap();
    assert_eq!(all.iter().map(|m| m.name.as_str()).collect::<Vec<_>>(), vec!["a", "c"]);
    let one = query_mission_record(&db, Some("c")).unwrap();
    assert_eq!(one.len(), 1);
    assert_eq!(one[0].mission_id, "c");
    assert!(query_mission_record(&db, Some("b")).unwrap().is_empty());
    assert!(query_mission_record(&db, Some("zzz")).unwrap().is_empty());
    assert!(live_mission_exists(&db, "a"));
    assert!(!live_mission_exists(&db, "b"));
    assert!(!live_mission_exists(&db, "zzz"));
    assert!(mission_refers_to(&db, "p"));
    assert!(!mission_refers_to(&db, "q"));
}

#[test]
fn delete_mission_marks_live_rows_only() {
    let mut db = store();
    add_mission(&mut db, "a");
    add_mission(&mut db, "b");
    let before = db.missions.clone();
    assert_eq!(delete_mission_record(&mut db, None), Err(DbError::NotFound));
    assert_eq!(delete_mission_record(&mut db, Some("nobody")), Err(DbError::NotFound));
    assert_eq!(db.missions, before);
    assert_eq!(delete_mission_record_at(&mut db, Some("a"), at(9)), Ok(1));
    assert!(db.missions[0].is_deleted);
    assert_eq!(db.missions[0].delete_at, at(9));
    assert_eq!(db.missions[1], before[1]);
    let before = db.missions.clone();
    assert_eq!(delete_mission_record_at(&mut db, Some("a"), at(10)), Err(DbError::NotFound));
    assert_eq!(delete_mission_record(&mut db, Some("a")), Err(DbError::NotFound));
    assert_eq!(db.missions, before);
    assert_eq!(db.missions[0].delete_at, at(9));
    assert_eq!(db.missions.len(), 2);
}

#[test]
fn clear_mission_removes_everything() {
    let mut db = store();
    for name in ["a", "b"] {
        add_mission(&mut db, name);
    }
    assert_eq!(clear_mission_record(&mut db), Ok(2));
    assert!(db.missions.is_empty());
    assert_eq!(clear_mission_record(&mut db), Ok(0));
}

#[test]
fn clean_mission_renumbers_densely_and_keeps_identities() {
    let mut db = store();
    for name in ["a", "b", "c", "d", "e"] {
        add_mission(&mut db, name);
    }
    delete_mission_record_at(&mut db, Some("a"), at(2)).unwrap();
    delete_mission_record_at(&mut db, Some("d"), at(2)).unwrap();
    let before = db.missions.clone();
    assert_eq!(clean_missions(&mut db), Ok(2));
    assert_eq!(db.missions.iter().map(|m| m.id).collect::<Vec<_>>(), vec![1, 2, 3]);
    assert_eq!(
        db.missions.iter().map(|m| m.mission_id.as_str()).collect::<Vec<_>>(),
        vec!["b", "c", "e"]
    );
    for row in &db.missions {
        let old = before.iter().find(|m| m.mission_id == row.mission_id).unwrap();
        let mut same = old.clone();
        same.id = row.id;
        assert_eq!(&same, row);
    }
    assert_eq!(clean_missions(&mut db), Ok(0));
    assert_eq!(db.missions.iter().map(|m| m.id).collect::<Vec<_>>(), vec![1, 2, 3]);
}

#[test]
fn procedure_table_operations() {
    let mut db = Database::new();
    let mut p = Procedure::default();
    p.name = "nightly".to_string();
    let stored = create_procedure_record(&mut db, &mut p).unwrap();
    assert_eq!(stored.id, 1);
    assert_eq!(stored, p);
    assert!(is_uuid(&stored.procedure_id));
    let mut q = Procedure::default();
    let second = create_procedure_record(&mut db, &mut q).unwrap();
    assert_eq!(second.id, 2);
    let mut change = stored.clone();
    change.cron_expression = "0 0 3 * * ? *".to_string();
    let row = update_procedure_record(&mut db, &mut change).unwrap();
    assert_eq!(row.cron_expression, "0 0 3 * * ? *");
    assert_eq!(row.id, 1);
    assert_eq!(db.procedures[0], row);
    let mut stranger = Procedure::default();
    assert_eq!(update_procedure_record(&mut db, &mut stranger), Err(DbError::NotFound));
    assert_eq!(query_procedure_record(&db, None).unwrap().len(), 2);
    assert_eq!(query_procedure_record(&db, Some(&stored.procedure_id)).unwrap(), vec![row.clone()]);
    assert_eq!(delete_procedure_record(&mut db, None), Err(DbError::NotFound));
    assert_eq!(delete_procedure_record(&mut db, Some("nobody")), Err(DbError::NotFound));
    assert!(live_procedure_exists(&db, &stored.procedure_id));
    assert_eq!(delete_procedure_record(&mut db, Some(&stored.procedure_id)), Ok(1));
    assert!(!live_procedure_exists(&db, &stored.procedure_id));
    assert_eq!(query_procedure_record(&db, None).unwrap(), vec![second.clone()]);
    let before = db.procedures.clone();
    assert_eq!(
        delete_procedure_record(&mut db, Some(&stored.procedure_id)),
        Err(DbError::NotFound)
    );
    let mut late = row.clone();
    late.name = "late".to_string();
    assert_eq!(update_procedure_record(&mut db, &mut late), Err(DbError::NotFound));
    assert_eq!(db.procedures, before);
    assert_eq!(clean_procedures(&mut db), Ok(1));
    assert_eq!(db.procedures.len(), 1);
    assert_eq!(db.procedures[0].id, 1);
    assert_eq!(db.procedures[0].procedure_id, second.procedure_id);
    assert_eq!(clear_procedure_record(&mut db), Ok(1));
    assert!(db.procedures.is_empty());
}

#[test]
fn ignore_table_operations() {
    let mut db = Database::new();
    let mut p = Procedure::default();
    let p = create_procedure_record(&mut db, &mut p).unwrap();
    let mut other = Procedure::default();
    let other = create_procedure_record(&mut db, &mut other).unwrap();
    let mut ids = Vec::new();
    for (keyword, owner) in [("*.tmp", &p), ("target", &p), ("*.log", &other)] {
        let mut rule = Ignore::default();
        rule.keyword = keyword.to_string();
        let stored = create_ignore_record(&mut db, &mut rule, owner).unwrap();
        assert_eq!(stored.procedure_id, owner.procedure_id);
        assert_eq!(stored, rule);
        ids.push(stored.ignore_id.clone());
    }
    assert_eq!(db.ignores.iter().map(|r| r.id).collect::<Vec<_>>(), vec![1, 2, 3]);
    assert_eq!(query_ignore_record(&db, None).unwrap().len(), 3);
    assert_eq!(query_ignore_record(&db, Some(&p.procedure_id)).unwrap().len(), 2);
    assert_eq!(get_procedure_ignores(&p.procedure_id, &db), vec!["*.tmp", "target"]);
    assert_eq!(get_procedure_ignores(&other.procedure_id, &db), vec!["*.log"]);
    assert!(get_procedure_ignores("nobody", &db).is_empty());
    let mut change = db.ignores[1].clone();
    change.keyword = "build".to_string();
    let row = update_ignore_record(&mut db, &mut change).unwrap();
    assert_eq!(row.keyword, "build");
    assert_eq!(row.id, 2);
    let mut stranger = Ignore::default();
    assert_eq!(update_ignore_record(&mut db, &mut stranger), Err(DbError::NotFound));
    assert_eq!(delete_ignore_record(&mut db, None, None), Err(DbError::NotFound));
    assert_eq!(delete_ignore_record(&mut db, Some(&ids[0]), Some(&other.procedure_id)), Ok(1));
    assert_eq!(get_procedure_ignores(&p.procedure_id, &db), vec!["build"]);
    assert_eq!(get_procedure_ignores(&other.procedure_id, &db), vec!["*.log"]);
    let before = db.ignores.clone();
    assert_eq!(delete_ignore_record(&mut db, Some(&ids[0]), None), Err(DbError::NotFound));
    assert_eq!(delete_ignore_record(&mut db, Some("nobody"), None), Err(DbError::NotFound));
    assert_eq!(delete_ignore_record(&mut db, None, Some("nobody")), Err(DbError::NotFound));
    let mut late = db.ignores[0].clone();
    late.keyword = "late".to_string();
    assert_eq!(update_ignore_record(&mut db, &mut late), Err(DbError::NotFound));
    assert_eq!(db.ignores, before);
    assert_eq!(delete_ignore_record(&mut db, None, Some(&p.procedure_id)), Ok(1));
    // a live procedure without live rules: nothing is marked, and that is no error
    let settled = db.ignores.clone();
    assert_eq!(delete_ignore_record(&mut db, None, Some(&p.procedure_id)), Ok(0));
    assert_eq!(delete_ignore_record_at(&mut db, None, Some(&p.procedure_id), at(99)), Ok(0));
    assert_eq!(db.ignores, settled);
    assert_eq!(db.ignores[0], before[0]);
    assert!(get_procedure_ignores(&p.procedure_id, &db).is_empty());
    assert_eq!(clean_ignores(&mut db), Ok(2));
    assert_eq!(db.ignores.len(), 1);
    assert_eq!(db.ignores[0].id, 1);
    assert_eq!(db.ignores[0].keyword, "*.log");
    assert_eq!(clear_ignore_record(&mut db), Ok(1));
}

#[test]
fn backup_table_operations() {
    let mut db = store();
    let mut m = mission_named("m");
    let m = create_mission_record(&mut db, &mut m).unwrap();
    let mut n = mission_named("n");
    let n = create_mission_record(&mut db, &mut n).unwrap();
    let mut a = Backup::default();
    a.backup_size = 10;
    let a = create_backup_record(&mut db, &mut a, &m).unwrap();
    assert_eq!(a.id, 1);
    assert_eq!(a.mission_id, m.mission_id);
    assert!(is_uuid(&a.backup_id));
    let mut b = Backup::default();
    let b = create_backup_record_at(&mut db, &mut b, &m, "b".to_string(), at(5)).unwrap();
    assert_eq!(b.backup_id, "b");
    assert_eq!(b.create_at, at(5));
    let mut c = Backup::default();
    let c = create_backup_record(&mut db, &mut c, &n).unwrap();
    assert_eq!(query_backup_record(&db, None, None).unwrap().len(), 3);
    assert_eq!(query_backup_record(&db, None, Some(&m.mission_id)).unwrap(), vec![a.clone(), b.clone()]);
    assert_eq!(query_backup_record(&db, Some("b"), Some(&n.mission_id)).unwrap(), vec![b.clone()]);
    assert_eq!(delete_backup_record(&mut db, None, None), Err(DbError::NotFound));
    assert_eq!(delete_backup_record_at(&mut db, Some("b"), None, at(6)), Ok(1));
    assert!(db.backups[1].is_deleted);
    assert_eq!(db.backups[1].delete_at, at(6));
    assert_eq!(query_backup_record(&db, None, Some(&m.mission_id)).unwrap(), vec![a.clone()]);
    let before = db.backups.clone();
    assert_eq!(delete_backup_record_at(&mut db, Some("b"), None, at(7)), Err(DbError::NotFound));
    assert_eq!(delete_backup_record(&mut db, Some("nobody"), None), Err(DbError::NotFound));
    assert_eq!(delete_backup_record(&mut db, None, Some("nobody")), Err(DbError::NotFound));
    assert_eq!(db.backups, before);
    assert_eq!(delete_backup_record(&mut db, None, Some(&m.mission_id)), Ok(1));
    // a live mission without live records: nothing is marked, and that is no error
    let settled = db.backups.clone();
    assert_eq!(delete_backup_record(&mut db, None, Some(&m.mission_id)), Ok(0));
    assert_eq!(delete_backup_record_at(&mut db, None, Some(&m.mission_id), at(99)), Ok(0));
    assert_eq!(db.backups, settled);
    assert_eq!(db.backups[1], before[1]);
    assert_eq!(query_backup_record(&db, None, None).unwrap(), vec![c.clone()]);
    assert_eq!(clean_backups(&mut db), Ok(2));
    assert_eq!(db.backups.len(), 1);
    assert_eq!(db.backups[0].id, 1);
    assert_eq!(db.backups[0].backup_id, c.backup_id);
    assert_eq!(clear_backup_record(&mut db), Ok(1));
}

#[test]
fn a_row_needs_a_live_owner() {
    let mut db = store();
    let m = add_mission(&mut db, "m");
    let p = db.procedures[0].clone();
    let mut stranger = Procedure::default();
    stranger.procedure_id = "q".to_string();
    let mut rule = Ignore::default();
    let given = rule.clone();
    assert_eq!(
        create_ignore_record_at(&mut db, &mut rule, &stranger, "r".to_string(), at(2)),
        Err(DbError::NotFound)
    );
    assert_eq!(create_ignore_record(&mut db, &mut rule, &stranger), Err(DbError::NotFound));
    assert_eq!(rule, given);
    assert!(db.ignores.is_empty());
    let stored = create_ignore_record_at(&mut db, &mut rule, &p, "r".to_string(), at(2)).unwrap();
    assert_eq!(stored.procedure_id, "p");
    assert_eq!(stored.ignore_id, "r");
    assert_eq!(stored.create_at, at(2));
    assert_eq!(db.ignores, vec![stored]);

    let mut nobody = mission_named("n");
    nobody.mission_id = "n".to_string();
    let mut record = Backup::default();
    let given = record.clone();
    assert_eq!(
        create_backup_record_at(&mut db, &mut record, &nobody, "b".to_string(), at(2)),
        Err(DbError::NotFound)
    );
    assert_eq!(create_backup_record(&mut db, &mut record, &nobody), Err(DbError::NotFound));
    assert_eq!(record, given);
    assert!(db.backups.is_empty());
    delete_mission_record_at(&mut db, Some("m"), at(3)).unwrap();
    assert_eq!(
        create_backup_record_at(&mut db, &mut record, &m, "b".to_string(), at(4)),
        Err(DbError::NotFound)
    );
    assert!(db.backups.is_empty());
    assert_eq!(delete_procedure_record_at(&mut db, Some("p"), at(5)), Ok(1));
    assert_eq!(
        create_ignore_record_at(&mut db, &mut rule, &p, "s".to_string(), at(6)),
        Err(DbError::NotFound)
    );
    assert_eq!(db.ignores.len(), 1);
}

#[test]
fn update_of_a_rule_keeps_its_owner() {
    let mut db = store();
    let p = db.procedures[0].clone();
    let mut rule = Ignore::default();
    rule.keyword = "*.tmp".to_string();
    let stored = create_ignore_record_at(&mut db, &mut rule, &p, "r".to_string(), at(2)).unwrap();
    let mut change = stored.clone();
    change.keyword = "*.bak".to_string();
    change.procedure_id = "q".to_string();
    change.id = 7;
    let row = update_ignore_record_at(&mut db, &mut change, at(3)).unwrap();
    assert_eq!(row.keyword, "*.bak");
    assert_eq!(row.procedure_id, "p");
    assert_eq!(row.id, 1);
    assert_eq!(row.update_at, at(3));
    assert_eq!(db.ignores, vec![row]);
}

#[test]
fn a_procedure_in_use_is_not_deleted() {
    let mut db = store();
    let p = db.procedures[0].clone();
    let mut rule = Ignore::default();
    create_ignore_record_at(&mut db, &mut rule, &p, "r".to_string(), at(1)).unwrap();
    add_mission(&mut db, "a");
    let procedures = db.procedures.clone();
    let ignores = db.ignores.clone();
    let missions = db.missions.clone();
    assert_eq!(
        delete_procedure_record_at(&mut db, Some("p"), at(2)),
        Err(DbError::InvalidTransition)
    );
    assert_eq!(delete_procedure_record(&mut db, Some("p")), Err(DbError::InvalidTransition));
    assert_eq!(db.procedures, procedures);
    assert_eq!(db.ignores, ignores);
    assert_eq!(db.missions, missions);
    delete_mission_record_at(&mut db, Some("a"), at(3)).unwrap();
    assert_eq!(delete_procedure_record_at(&mut db, Some("p"), at(4)), Ok(1));
    assert!(db.procedures[0].is_deleted);
    assert_eq!(db.procedures[0].delete_at, at(4));
    assert!(db.ignores[0].is_deleted);
    assert_eq!(db.ignores[0].delete_at, at(4));
    assert_eq!(db.missions[0].delete_at, at(3));
}

#[test]
fn deleting_a_procedure_leaves_other_rules_alone() {
    let mut db = store();
    let p = db.procedures[0].clone();
    let mut q = Procedure::default();
    let q = create_procedure_record_at(&mut db, &mut q, "q".to_string(), at(0));
    let mut rule = Ignore::default();
    create_ignore_record_at(&mut db, &mut rule, &p, "r".to_string(), at(1)).unwrap();
    let mut rule = Ignore::default();
    let kept = create_ignore_record_at(&mut db, &mut rule, &q, "s".to_string(), at(1)).unwrap();
    let mut rule = Ignore::default();
    create_ignore_record_at(&mut db, &mut rule, &p, "t".to_string(), at(1)).unwrap();
    assert_eq!(delete_ignore_record_at(&mut db, Some("t"), None, at(2)), Ok(1));
    assert_eq!(delete_procedure_record_at(&mut db, Some("p"), at(3)), Ok(1));
    assert_eq!(db.ignores[0].delete_at, at(3));
    assert_eq!(db.ignores[1], kept);
    assert_eq!(db.ignores[2].delete_at, at(2));
    assert_eq!(db.procedures[1], q);
}

#[test]
fn related_record_joins_mission_and_procedure() {
    let mut db = Database::new();
    let mut p = Procedure::default();
    p.name = "p".to_string();
    let p = create_procedure_record(&mut db, &mut p).unwrap();
    let mut m = mission_named("m");
    m.procedure_id = p.procedure_id.clone();
    let m = create_mission_record(&mut db, &mut m).unwrap();
    let record = get_mission_related_record(&m.mission_id, &db).unwrap();
    assert_eq!(record.mission, m);
    assert_eq!(record.procedure, p);
    assert_eq!(record.ignore.keyword, "");
    assert_eq!(record.backup.backup_size, 0);
    assert_eq!(get_mission_related_record("nobody", &db), Err(DbError::NotFound));
    db.procedures[0].is_deleted = true;
    assert_eq!(get_mission_related_record(&m.mission_id, &db), Err(DbError::NotFound));
    db.procedures[0].is_deleted = false;
    delete_mission_record(&mut db, Some(&m.mission_id)).unwrap();
    assert_eq!(get_mission_related_record(&m.mission_id, &db), Err(DbError::NotFound));
}

#[test]
fn deleting_the_rows_of_an_owner_that_has_none() {
    let mut db = store();
    add_mission(&mut db, "m");
    // the procedure "p" has no rule and the mission "m" no record
    assert_eq!(delete_ignore_record_at(&mut db, None, Some("p"), at(2)), Ok(0));
    assert_eq!(delete_backup_record_at(&mut db, None, Some("m"), at(2)), Ok(0));
    assert!(db.ignores.is_empty());
    assert!(db.backups.is_empty());
    // an own identity that picks nothing is not found, whoever the owner is
    assert_eq!(delete_ignore_record_at(&mut db, Some("r"), Some("p"), at(2)), Err(DbError::NotFound));
    assert_eq!(delete_backup_record_at(&mut db, Some("b"), Some("m"), at(2)), Err(DbError::NotFound));
    // an owner that is no live row is not found
    assert_eq!(delete_ignore_record_at(&mut db, None, Some("q"), at(2)), Err(DbError::NotFound));
    assert_eq!(delete_backup_record_at(&mut db, None, Some("n"), at(2)), Err(DbError::NotFound));
    delete_mission_record_at(&mut db, Some("m"), at(3)).unwrap();
    assert_eq!(delete_backup_record_at(&mut db, None, Some("m"), at(4)), Err(DbError::NotFound));
    delete_procedure_record_at(&mut db, Some("p"), at(5)).unwrap();
    assert_eq!(delete_ignore_record_at(&mut db, None, Some("p"), at(6)), Err(DbError::NotFound));
    // the records of a mission that is marked as deleted can still be marked
    let mut db = store();
    let m = add_mission(&mut db, "m");
    let mut record = Backup::default();
    create_backup_record_at(&mut db, &mut record, &m, "b".to_string(), at(1)).unwrap();
    delete_mission_record_at(&mut db, Some("m"), at(2)).unwrap();
    assert_eq!(delete_backup_record_at(&mut db, None, Some("m"), at(3)), Ok(1));
    assert_eq!(db.backups[0].delete_at, at(3));
}
