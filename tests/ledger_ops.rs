use voidlink::ledger::{find_backup, record_backup, remove_backup, BackupError, BackupInfo, BackupKind};
use voidlink::rotation::rotate_backups;
use voidlink::stats::backup_stats;

fn rec(id: &str, created_at: &str, size: u64) -> BackupInfo {
    BackupInfo {
        id: id.to_string(),
        name: format!("backup_{}.zip", id),
        created_at: created_at.to_string(),
        size_bytes: size,
        path: format!("/store/backup_{}.zip", id),
        backup_type: BackupKind::Manual,
        included_folders: vec!["world".to_string()],
    }
}

fn ids(v: &[BackupInfo]) -> Vec<String> {
    v.iter().map(|b| b.id.clone()).collect()
}

#[test]
fn rotate_two_of_five_evicts_three_oldest() {
    let mut ledger = vec![
        rec("c", "2024-01-03T00:00:00+00:00", 1),
        rec("a", "2024-01-01T00:00:00+00:00", 1),
        rec("e", "2024-01-05T00:00:00+00:00", 1),
        rec("b", "2024-01-02T00:00:00+00:00", 1),
        rec("d", "2024-01-04T00:00:00+00:00", 1),
    ];
    let evicted = rotate_backups(&mut ledger, 2);
    assert_eq!(ids(&evicted), vec!["a", "b", "c"]);
    assert_eq!(ids(&ledger), vec!["d", "e"]);
    assert_eq!(evicted.len(), 3);
}

#[test]
fn rotate_under_limit_evicts_nothing_and_sorts() {
    let mut ledger = vec![
        rec("b", "2024-01-02T00:00:00+00:00", 1),
        rec("a", "2024-01-01T00:00:00+00:00", 1),
    ];
    let evicted = rotate_backups(&mut ledger, 5);
    assert!(evicted.is_empty());
    assert_eq!(ids(&ledger), vec!["a", "b"]);
}

#[test]
fn rotate_keeps_insertion_order_among_equal_times() {
    let mut ledger = vec![
        rec("x", "2024-01-01T00:00:00+00:00", 1),
        rec("y", "2024-01-01T00:00:00+00:00", 1),
        rec("z", "2024-01-01T00:00:00+00:00", 1),
    ];
    let evicted = rotate_backups(&mut ledger, 1);
    assert_eq!(ids(&evicted), vec!["x", "y"]);
    assert_eq!(ids(&ledger), vec!["z"]);
}

#[test]
fn rotate_to_zero_evicts_all() {
    let mut ledger = vec![rec("a", "2024-01-01T00:00:00+00:00", 1)];
    let evicted = rotate_backups(&mut ledger, 0);
    assert_eq!(ids(&evicted), vec!["a"]);
    assert!(ledger.is_empty());
    let mut empty: Vec<BackupInfo> = vec![];
    assert!(rotate_backups(&mut empty, 0).is_empty());
}

#[test]
fn rotated_keepers_are_newer_than_evicted() {
    let mut ledger = vec![
        rec("4", "2024-03-01T10:00:00+00:00", 1),
        rec("1", "2023-12-31T23:59:59+00:00", 1),
        rec("3", "2024-02-29T00:00:00+00:00", 1),
        rec("2", "2024-01-15T08:30:00+00:00", 1),
    ];
    let evicted = rotate_backups(&mut ledger, 2);
    for e in &evicted {
        for k in &ledger {
            assert!(e.created_at < k.created_at);
        }
    }
    assert_eq!(ledger.len(), 2);
    assert_eq!(evicted.len(), 2);
}

#[test]
fn delete_twice_fails_with_not_found() {
    let mut ledger = vec![rec("a", "t1", 1), rec("b", "t2", 2)];
    let gone = remove_backup(&mut ledger, "a").expect("first delete");
    assert_eq!(gone.id, "a");
    assert_eq!(ids(&ledger), vec!["b"]);
    match remove_backup(&mut ledger, "a") {
        Err(BackupError::NotFound) => {}
        other => panic!("unexpected {:?}", other),
    }
    assert_eq!(ids(&ledger), vec!["b"]);
}

#[test]
fn delete_record_whose_file_is_gone_still_removes_it() {
    let mut ledger = vec![rec("a", "t1", 1)];
    ledger[0].path = "/nowhere/at/all.zip".to_string();
    assert!(remove_backup(&mut ledger, "a").is_ok());
    assert!(ledger.is_empty());
}

#[test]
fn delete_from_empty_ledger_is_not_found() {
    let mut ledger: Vec<BackupInfo> = vec![];
    assert!(matches!(remove_backup(&mut ledger, "x"), Err(BackupError::NotFound)));
}

#[test]
fn find_returns_first_match() {
    let ledger = vec![rec("a", "t1", 1), rec("b", "t2", 2), rec("b", "t3", 3)];
    assert_eq!(find_backup(&ledger, "b"), Some(1));
    assert_eq!(find_backup(&ledger, "a"), Some(0));
    assert_eq!(find_backup(&ledger, "zz"), None);
}

#[test]
fn record_appends_one() {
    let mut ledger = vec![rec("a", "t1", 1)];
    record_backup(&mut ledger, rec("b", "t2", 7));
    assert_eq!(ids(&ledger), vec!["a", "b"]);
    assert_eq!(ledger[1].size_bytes, 7);
}

#[test]
fn stats_of_ledger() {
    let ledger = vec![
        rec("a", "2024-01-02T00:00:00+00:00", 10),
        rec("b", "2024-01-01T00:00:00+00:00", 20),
        rec("c", "2024-01-03T00:00:00+00:00", 30),
    ];
    let s = backup_stats(&ledger);
    assert_eq!(s.total_backups, 3);
    assert_eq!(s.total_size_bytes, 60);
    assert_eq!(s.oldest_backup.as_deref(), Some("2024-01-01T00:00:00+00:00"));
    assert_eq!(s.newest_backup.as_deref(), Some("2024-01-03T00:00:00+00:00"));
}

#[test]
fn stats_of_empty_ledger() {
    let s = backup_stats(&vec![]);
    assert_eq!(s.total_backups, 0);
    assert_eq!(s.total_size_bytes, 0);
    assert!(s.oldest_backup.is_none());
    assert!(s.newest_backup.is_none());
}

#[test]
fn stats_size_saturates() {
    let ledger = vec![rec("a", "t", u64::MAX), rec("b", "t", 5)];
    assert_eq!(backup_stats(&ledger).total_size_bytes, u64::MAX);
}

#[test]
fn kinds_have_stored_names() {
    assert_eq!(BackupKind::Manual.as_str(), "manual");
    assert_eq!(BackupKind::Auto.as_str(), "auto");
    assert_eq!(BackupKind::PreRestore.as_str(), "pre-restore");
    assert_eq!(BackupKind::from_name("pre-restore"), Some(BackupKind::PreRestore));
    assert_eq!(BackupKind::from_name("auto"), Some(BackupKind::Auto));
    assert_eq!(BackupKind::from_name("weekly"), None);
}

#[test]
fn error_messages() {
    assert_eq!(BackupError::NotFound.message(), "Backup not found");
    assert_eq!(BackupError::ArchiveMissing.message(), "Backup file does not exist");
    assert_eq!(BackupError::SourceMissing.message(), "Server path does not exist");
    assert_eq!(BackupError::Io("disk full".to_string()).message(), "disk full");
}

#[test]
fn equal_times_keep_their_order_when_sorted() {
    let mut ledger = vec![
        rec("b1", "2024-01-02T00:00:00+00:00", 1),
        rec("a", "2024-01-01T00:00:00+00:00", 1),
        rec("b2", "2024-01-02T00:00:00+00:00", 1),
        rec("b3", "2024-01-02T00:00:00+00:00", 1),
    ];
    let evicted = rotate_backups(&mut ledger, 10);
    assert!(evicted.is_empty());
    assert_eq!(ids(&ledger), vec!["a", "b1", "b2", "b3"]);
}
