use voidlink::clock::{
    archive_file_name, backup_id, created_at_string, current_time, decimal_string, uuid_simple,
    LocalTime,
};
use voidlink::engine::{
    archive_location, record_new_backup, RestoreAction, RestoreEvent, RestorePhase,
    RestoreSession,
};
use voidlink::ledger::{find_backup, BackupError, BackupInfo, BackupKind};
use voidlink::tail::{tail_result, tail_start};
use voidlink::storage::{
    get_backup_dir, get_metadata_path, join_path, settings_path, storage_root, BackupSettings,
};

fn at(year: i32, month: u32, day: u32, h: u32, m: u32, s: u32, offset: i32) -> LocalTime {
    LocalTime {
        year,
        month,
        day,
        hour: h,
        minute: m,
        second: s,
        nanosecond: 123_456_789,
        offset_seconds: offset,
    }
}

fn rec(id: &str, folders: &[&str], kind: BackupKind) -> BackupInfo {
    BackupInfo {
        id: id.to_string(),
        name: format!("backup_{}.zip", id),
        created_at: "2024-01-01T00:00:00+00:00".to_string(),
        size_bytes: 1,
        path: format!("/store/{}.zip", id),
        backup_type: kind,
        included_folders: folders.iter().map(|f| f.to_string()).collect(),
    }
}

#[test]
fn archive_name_has_second_precision_stamp() {
    let t = at(2024, 3, 7, 9, 5, 2, 3600);
    assert_eq!(archive_file_name(&t), "backup_2024-03-07_09-05-02.zip");
}

#[test]
fn created_at_is_rfc3339_with_offset() {
    assert_eq!(created_at_string(&at(2024, 3, 7, 9, 5, 2, 3600)), "2024-03-07T09:05:02+01:00");
    assert_eq!(created_at_string(&at(2024, 12, 31, 23, 59, 59, -16200)), "2024-12-31T23:59:59-04:30");
    assert_eq!(created_at_string(&at(999, 1, 1, 0, 0, 0, 0)), "0999-01-01T00:00:00+00:00");
}

#[test]
fn leap_second_shows_as_sixtieth() {
    let mut t = at(2016, 12, 31, 23, 59, 59, 0);
    t.nanosecond = 1_000_000_000;
    assert_eq!(archive_file_name(&t), "backup_2016-12-31_23-59-60.zip");
}

#[test]
fn years_out_of_four_digits_carry_a_sign() {
    assert_eq!(created_at_string(&at(12345, 1, 2, 3, 4, 5, 0)), "+12345-01-02T03:04:05+00:00");
    assert_eq!(created_at_string(&at(-7, 1, 2, 3, 4, 5, 0)), "-0007-01-02T03:04:05+00:00");
}

#[test]
fn ids_are_hex_of_seconds_then_nanos() {
    assert_eq!(backup_id(0x65a1b2c3, 0x1f), "65a1b2c30000001f");
    assert_eq!(backup_id(0, 0), "000000000");
    assert_eq!(backup_id(0x1, 0x23), "100000023");
    assert_ne!(backup_id(0x1, 0x23), backup_id(0x12, 0x3));
    let id = uuid_simple().expect("clock after the epoch");
    assert!(id.len() >= 9);
    assert!(id.chars().all(|c| c.is_ascii_hexdigit()));
}

#[test]
fn decimal_of_numbers() {
    assert_eq!(decimal_string(0), "0");
    assert_eq!(decimal_string(1907), "1907");
    assert_eq!(decimal_string(u64::MAX), "18446744073709551615");
}

#[test]
fn clock_reads_calendar_ranges() {
    let t = current_time().expect("readable clock");
    assert!((1..=12).contains(&t.month));
    assert!((1..=31).contains(&t.day));
    assert!(t.hour < 24 && t.minute < 60 && t.second < 60);
    assert!(t.year >= 2000);
}

#[test]
fn archive_location_joins_dir_and_name() {
    let (name, path) = archive_location("/data/backups/srv1", &at(2024, 1, 2, 3, 4, 5, 0));
    assert_eq!(name, "backup_2024-01-02_03-04-05.zip");
    assert_eq!(path, "/data/backups/srv1/backup_2024-01-02_03-04-05.zip");
}

#[test]
fn recording_a_backup_adds_exactly_one() {
    let mut ledger = vec![rec("old", &["world"], BackupKind::Auto)];
    assert!(find_backup(&ledger, "abc").is_none());
    let r = record_new_backup(
        &mut ledger,
        "abc".to_string(),
        &at(2024, 1, 2, 3, 4, 5, 0),
        4096,
        "/s/backup_2024-01-02_03-04-05.zip".to_string(),
        BackupKind::Manual,
        vec!["world".to_string(), "world_nether".to_string()],
    );
    assert_eq!(ledger.len(), 2);
    assert_eq!(ledger[1].id, "abc");
    assert_eq!(r.size_bytes, 4096);
    assert_eq!(ledger[1].size_bytes, 4096);
    assert_eq!(r.name, "backup_2024-01-02_03-04-05.zip");
    assert_eq!(r.created_at, "2024-01-02T03:04:05+00:00");
    assert_eq!(r.backup_type, BackupKind::Manual);
    assert_eq!(r.included_folders, vec!["world", "world_nether"]);
}

#[test]
fn paths_join_with_one_separator() {
    assert_eq!(join_path("/a/b", "c"), "/a/b/c");
    assert_eq!(join_path("/a/b/", "c"), "/a/b/c");
    assert_eq!(join_path("C:\\x\\", "c"), "C:\\x\\c");
    assert_eq!(join_path("", "c"), "c");
    assert_eq!(get_metadata_path("/s/srv"), "/s/srv/backups.json");
    assert_eq!(settings_path("/s/srv"), "/s/srv/settings.json");
}

#[test]
fn storage_root_prefers_custom_path() {
    assert_eq!(storage_root("srv1", Some("/mnt/b"), Some("/home/u/Documents")).unwrap(), "/mnt/b/srv1");
    assert_eq!(
        storage_root("srv1", None, Some("/home/u/Documents")).unwrap(),
        "/home/u/Documents/VoidLink/Backups/srv1"
    );
    match storage_root("srv1", None, None) {
        Err(BackupError::Io(m)) => assert_eq!(m, "Could not find Documents directory"),
        other => panic!("unexpected {:?}", other),
    }
    assert_eq!(get_backup_dir("srv1", Some("/mnt/b")).unwrap(), "/mnt/b/srv1");
    if let Ok(d) = get_backup_dir("srv2", None) {
        assert!(d.ends_with("VoidLink/Backups/srv2"));
    }
}

#[test]
fn settings_defaults() {
    let s = BackupSettings::default();
    assert!(!s.enabled);
    assert_eq!(s.interval_minutes, 30);
    assert_eq!(s.max_backups, 5);
    assert!(s.custom_path.is_none());
    assert_eq!(s.included_folders, vec!["world", "world_nether", "world_the_end"]);
}

#[test]
fn restore_purges_only_target_folders() {
    let ledger = vec![rec("t", &["world"], BackupKind::Manual)];
    let mut s = RestoreSession::start(&ledger, "t", vec!["world".to_string(), "world_nether".to_string()]);
    assert_eq!(s.phase, RestorePhase::Validating);
    match s.next_action() {
        RestoreAction::CheckArchive(p) => assert_eq!(p, "/store/t.zip"),
        other => panic!("unexpected {:?}", other),
    }
    s.on_event(RestoreEvent::ArchiveChecked(true));
    match s.next_action() {
        RestoreAction::TakeSnapshot(f) => assert_eq!(f, vec!["world", "world_nether"]),
        other => panic!("unexpected {:?}", other),
    }
    s.on_event(RestoreEvent::SnapshotTaken(rec("pre", &["world", "world_nether"], BackupKind::PreRestore)));
    let mut removed = vec![];
    while let RestoreAction::RemoveFolder(f) = s.next_action() {
        removed.push(f);
        s.on_event(RestoreEvent::FolderRemoved);
    }
    assert_eq!(removed, vec!["world"]);
    match s.next_action() {
        RestoreAction::Extract(p) => assert_eq!(p, "/store/t.zip"),
        other => panic!("unexpected {:?}", other),
    }
    s.on_event(RestoreEvent::Extracted);
    match s.next_action() {
        RestoreAction::Finish(b) => {
            assert_eq!(b.id, "pre");
            assert_eq!(b.backup_type, BackupKind::PreRestore);
        }
        other => panic!("unexpected {:?}", other),
    }
}

#[test]
fn restore_of_unknown_id_is_not_found() {
    let ledger = vec![rec("t", &["world"], BackupKind::Manual)];
    let s = RestoreSession::start(&ledger, "nope", vec![]);
    assert_eq!(s.phase, RestorePhase::Failed);
    assert!(matches!(s.next_action(), RestoreAction::Abort(BackupError::NotFound)));
}

#[test]
fn restore_of_missing_archive_fails_before_snapshot() {
    let ledger = vec![rec("t", &["world"], BackupKind::Manual)];
    let mut s = RestoreSession::start(&ledger, "t", vec!["world".to_string()]);
    s.on_event(RestoreEvent::ArchiveChecked(false));
    assert!(matches!(s.next_action(), RestoreAction::Abort(BackupError::ArchiveMissing)));
    assert!(s.snapshot.is_none());
}

#[test]
fn failed_snapshot_removes_nothing() {
    let ledger = vec![rec("t", &["world"], BackupKind::Manual)];
    let mut s = RestoreSession::start(&ledger, "t", vec!["world".to_string()]);
    s.on_event(RestoreEvent::ArchiveChecked(true));
    s.on_event(RestoreEvent::StepFailed(BackupError::Io("disk full".to_string())));
    match s.next_action() {
        RestoreAction::Abort(BackupError::Io(m)) => assert_eq!(m, "disk full"),
        other => panic!("unexpected {:?}", other),
    }
    s.on_event(RestoreEvent::FolderRemoved);
    assert_eq!(s.phase, RestorePhase::Failed);
    assert_eq!(s.purged, 0);
}

#[test]
fn snapshot_of_wrong_kind_fails_the_restore() {
    let ledger = vec![rec("t", &["world"], BackupKind::Manual)];
    let mut s = RestoreSession::start(&ledger, "t", vec!["world".to_string()]);
    s.on_event(RestoreEvent::ArchiveChecked(true));
    s.on_event(RestoreEvent::SnapshotTaken(rec("m", &["world"], BackupKind::Manual)));
    assert_eq!(s.phase, RestorePhase::Failed);
    assert!(!matches!(s.next_action(), RestoreAction::RemoveFolder(_)));
}

#[test]
fn restore_with_no_target_folders_goes_straight_to_extract() {
    let ledger = vec![rec("t", &[], BackupKind::Manual)];
    let mut s = RestoreSession::start(&ledger, "t", vec!["world".to_string()]);
    s.on_event(RestoreEvent::ArchiveChecked(true));
    s.on_event(RestoreEvent::SnapshotTaken(rec("pre", &["world"], BackupKind::PreRestore)));
    assert_eq!(s.phase, RestorePhase::Extracting);
}

#[test]
fn tail_resumes_or_restarts() {
    assert_eq!(tail_start(100, 40), 40);
    assert_eq!(tail_start(100, 100), 100);
    assert_eq!(tail_start(10, 40), 0);
    let r = tail_result("abc".to_string(), 40, 3);
    assert_eq!(r.new_offset, 43);
    assert_eq!(r.content, "abc");
}

#[test]
fn snapshot_of_other_folders_fails_the_restore() {
    let ledger = vec![rec("t", &["world"], BackupKind::Manual)];
    let mut s = RestoreSession::start(&ledger, "t", vec!["world".to_string()]);
    s.on_event(RestoreEvent::ArchiveChecked(true));
    s.on_event(RestoreEvent::SnapshotTaken(rec("pre", &["world_nether"], BackupKind::PreRestore)));
    assert_eq!(s.phase, RestorePhase::Failed);
    assert!(s.snapshot.is_none());
    assert!(matches!(s.next_action(), RestoreAction::Abort(BackupError::Io(_))));
}

#[test]
fn unexpected_events_change_nothing() {
    let ledger = vec![rec("t", &["world"], BackupKind::Manual)];
    let mut s = RestoreSession::start(&ledger, "t", vec!["world".to_string()]);
    s.on_event(RestoreEvent::Extracted);
    s.on_event(RestoreEvent::FolderRemoved);
    s.on_event(RestoreEvent::SnapshotTaken(rec("pre", &["world"], BackupKind::PreRestore)));
    assert_eq!(s.phase, RestorePhase::Validating);
    assert!(s.snapshot.is_none());
    assert_eq!(s.purged, 0);
    assert!(s.error.is_none());
}
