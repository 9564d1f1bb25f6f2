use confsync::config::{add_tracking_file, Config, PathProbe, Storage, Tracking};
use confsync::error::SyncError;
use confsync::history::{read_cmt, split_lines};
use confsync::ops::{backup_now, compare_files, copy_file_to_repo, restore_file, BackupOutcome, RepoEntry};
use confsync::timestamp::Timestamp;

fn stamp(second: u32) -> Timestamp {
    Timestamp { year: 2024, month: 3, day: 9, hour: 7, minute: 5, second }
}

fn fresh() -> RepoEntry {
    RepoEntry { data: None, history: Vec::new() }
}

#[test]
fn unchanged_source_is_backed_up_once() {
    let mut e = fresh();
    let first = copy_file_to_repo(&mut e, b"same".to_vec(), "/etc/a.conf", false, &stamp(1));
    let second = copy_file_to_repo(&mut e, b"same".to_vec(), "/etc/a.conf", false, &stamp(2));
    assert_eq!(first, BackupOutcome::Copied);
    assert_eq!(second, BackupOutcome::AlreadyBackedUp);
    assert_eq!(e.history, vec!["[2024-03-09 07:05:01] /etc/a.conf".to_string()]);
}

#[test]
fn forced_backup_always_records() {
    let mut e = fresh();
    copy_file_to_repo(&mut e, b"same".to_vec(), "/etc/a.conf", false, &stamp(1));
    let again = copy_file_to_repo(&mut e, b"same".to_vec(), "/etc/a.conf", true, &stamp(2));
    assert_eq!(again, BackupOutcome::Copied);
    assert_eq!(e.history.len(), 2);
}

#[test]
fn changed_source_of_same_size_is_recorded() {
    let mut e = fresh();
    copy_file_to_repo(&mut e, b"abcd".to_vec(), "/etc/a.conf", false, &stamp(1));
    let r = copy_file_to_repo(&mut e, b"abce".to_vec(), "/etc/a.conf", false, &stamp(2));
    assert_eq!(r, BackupOutcome::Copied);
    assert_eq!(e.history.len(), 2);
    assert_eq!(e.data, Some(b"abce".to_vec()));
}

#[test]
fn changed_source_of_other_size_is_recorded() {
    let mut e = fresh();
    copy_file_to_repo(&mut e, b"abcd".to_vec(), "/etc/a.conf", false, &stamp(1));
    let r = copy_file_to_repo(&mut e, b"abcdef".to_vec(), "/etc/a.conf", false, &stamp(2));
    assert_eq!(r, BackupOutcome::Copied);
    assert_eq!(e.history[1], "[2024-03-09 07:05:02] /etc/a.conf");
}

#[test]
fn compare_files_checks_size_and_content() {
    assert!(compare_files(b"", b""));
    assert!(compare_files(b"xyz", b"xyz"));
    assert!(!compare_files(b"xyz", b"xyzz"));
    assert!(!compare_files(b"xyz", b"xzz"));
}

#[test]
fn restore_without_overwrite_keeps_existing_destination() {
    let mut e = fresh();
    copy_file_to_repo(&mut e, b"v1".to_vec(), "/etc/a.conf", false, &stamp(1));
    let mut dest = Some(b"local edits".to_vec());
    assert_eq!(restore_file(&e, &mut dest, false), Err(SyncError::WouldOverwrite));
    assert_eq!(dest, Some(b"local edits".to_vec()));
}

#[test]
fn restore_with_overwrite_replaces_destination() {
    let mut e = fresh();
    copy_file_to_repo(&mut e, b"v1".to_vec(), "/etc/a.conf", false, &stamp(1));
    let mut dest = Some(b"local edits".to_vec());
    assert_eq!(restore_file(&e, &mut dest, true), Ok(()));
    assert_eq!(dest, Some(b"v1".to_vec()));
}

#[test]
fn restore_without_backup_is_not_found() {
    let e = fresh();
    let mut dest = None;
    assert_eq!(restore_file(&e, &mut dest, true), Err(SyncError::NotFound));
    assert_eq!(dest, None);
}

#[test]
fn history_empty_before_backup_and_not_found_when_never_tracked() {
    let mut c = Config {
        storage: Storage { local: true, repo_url: String::new(), profile: None },
        tracking: Tracking::new(),
    };
    add_tracking_file(&mut c, PathProbe::File("/etc/a.conf".to_string()), "a".to_string()).unwrap();
    assert_eq!(read_cmt(&c, "a", None), Ok(Vec::new()));
    assert_eq!(read_cmt(&c, "never", None), Err(SyncError::NotFound));
    assert_eq!(read_cmt(&c, "a", Some("")), Ok(Vec::new()));
}

fn sidecar_of(e: &RepoEntry) -> String {
    let mut text = String::new();
    for line in &e.history {
        text.push_str(line);
        text.push('\n');
    }
    text
}

#[test]
fn end_to_end_track_backup_edit_backup_restore() {
    let path = "/tmp/a.conf";
    let mut source = b"v1".to_vec();

    let mut c = Config::initial("/cfg/config.toml".to_string());
    add_tracking_file(&mut c, PathProbe::File(path.to_string()), "a".to_string()).unwrap();

    let mut e = fresh();
    assert_eq!(copy_file_to_repo(&mut e, source.clone(), path, false, &stamp(1)), BackupOutcome::Copied);
    let h = read_cmt(&c, "a", Some(&sidecar_of(&e))).unwrap();
    assert_eq!(h.len(), 1);

    source = b"v2".to_vec();
    assert_eq!(copy_file_to_repo(&mut e, source.clone(), path, false, &stamp(2)), BackupOutcome::Copied);
    let h = read_cmt(&c, "a", Some(&sidecar_of(&e))).unwrap();
    assert_eq!(h.len(), 2);
    assert_eq!(h[0], "[2024-03-09 07:05:01] /tmp/a.conf");
    assert_eq!(h[1], "[2024-03-09 07:05:02] /tmp/a.conf");

    let mut fresh_dest: Option<Vec<u8>> = None;
    assert_eq!(restore_file(&e, &mut fresh_dest, false), Ok(()));
    assert_eq!(fresh_dest, Some(b"v2".to_vec()));
}

#[test]
fn split_lines_edge_cases() {
    assert_eq!(split_lines(""), Vec::<String>::new());
    assert_eq!(split_lines("a\n"), vec!["a".to_string()]);
    assert_eq!(split_lines("a\nb"), vec!["a".to_string(), "b".to_string()]);
    assert_eq!(split_lines("\n"), vec!["".to_string()]);
    assert_eq!(split_lines("a\n\nb\n"), vec!["a".to_string(), "".to_string(), "b".to_string()]);
    assert_eq!(split_lines("a\r\n"), vec!["a".to_string()]);
    assert_eq!(split_lines("a\r\nb\r\n"), vec!["a".to_string(), "b".to_string()]);
    assert_eq!(split_lines("\r\n"), vec!["".to_string()]);
    assert_eq!(split_lines("a\r"), vec!["a\r".to_string()]);
    assert_eq!(split_lines("a\rb\n"), vec!["a\rb".to_string()]);
}

#[test]
fn backup_now_stamps_and_dedups() {
    let mut e = fresh();
    assert_eq!(backup_now(&mut e, b"cfg".to_vec(), "/etc/x.conf", false), Ok(BackupOutcome::Copied));
    assert_eq!(backup_now(&mut e, b"cfg".to_vec(), "/etc/x.conf", false), Ok(BackupOutcome::AlreadyBackedUp));
    assert_eq!(e.history.len(), 1);
    let line = &e.history[0];
    assert!(line.starts_with('['));
    assert_eq!(&line[20..], "] /etc/x.conf");
}
