use zkteco_bridge::rotation::{backup_name, rotation_plan, KEEP_FILES, MAX_LOG_BYTES};

#[test]
fn no_rotation_when_under_cap() {
    assert!(rotation_plan(100, 1024, 3).is_none());
    assert!(rotation_plan(1024, 1024, 3).is_none());
}

#[test]
fn rotation_creates_backup_and_truncates_live_file() {
    let plan = rotation_plan(200, 100, 3).unwrap();
    assert_eq!(plan.delete, 3);
    assert_eq!(backup_name("svc.log", 1), "svc.log.1");
}

#[test]
fn rotation_shifts_existing_backups() {
    let plan = rotation_plan(200, 100, 3).unwrap();
    // Old .2 moves to .3 before old .1 moves to .2.
    assert_eq!(plan.renames, vec![(2, 3), (1, 2)]);
}

#[test]
fn oldest_backup_deleted_when_keep_exceeded() {
    let plan = rotation_plan(200, 100, 2).unwrap();
    assert_eq!(plan.delete, 2);
    assert_eq!(plan.renames, vec![(1, 2)]);
    assert!(plan.renames.iter().all(|&(_, to)| to <= 2));
}

#[test]
fn service_logs_rotate_at_five_mebibytes_keeping_five() {
    assert_eq!(MAX_LOG_BYTES, 5 * 1024 * 1024);
    assert_eq!(KEEP_FILES, 5);
    let plan = rotation_plan(MAX_LOG_BYTES + 1, MAX_LOG_BYTES, KEEP_FILES).unwrap();
    assert_eq!(plan.renames, vec![(4, 5), (3, 4), (2, 3), (1, 2)]);
    assert!(rotation_plan(1, 0, 1).unwrap().renames.is_empty());
}
