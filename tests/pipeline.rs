use bkupsv::fssys::FileInfo;
use bkupsv::task::inbox::{first_step, next_step, run as ingest, MoveStep};
use bkupsv::task::status::{report_disk_usage, run as status};
use bkupsv::task::sync::{count_entries, deb_arch, deb_file_name, needs_update, parse_version, run as sync, RemoteEntry, SyncStep};
use bkupsv::task::watch::{filter_event, step, EventKind, WatchAction, WatchInput, WatchState};
use bkupsv::task::{any_enabled, prepare_dirs, run, Stage, TaskConfig};
use bkupsv::version::{build_profile, version, version_vec, BuildInfo};

fn inbox_file(path: &str) -> FileInfo {
    FileInfo { path: path.to_string(), is_file: true, size: None }
}

#[test]
fn ingestion_destination() {
    let config = TaskConfig::default();
    let files = vec![
        inbox_file("/inbox/tag-20240101.zip"),
        inbox_file("/inbox/readme.txt"),
        FileInfo { path: "/inbox/dir-20240101.zip".to_string(), is_file: false, size: None },
        inbox_file("/inbox/db_20240101.tar.gz"),
    ];
    let moves = ingest(&config, "/repo", &files);
    assert_eq!(moves.len(), 2);
    assert_eq!(moves[0].src, "/inbox/tag-20240101.zip");
    assert_eq!(moves[0].dir, "/repo/tag");
    assert_eq!(moves[0].dst, "/repo/tag/tag-20240101.zip");
    assert_eq!(moves[1].dst, "/repo/db/db_20240101.tar.gz");
    let moves = ingest(&config, "/repo/", &files);
    assert_eq!(moves[0].dst, "/repo/tag/tag-20240101.zip");
}

#[test]
fn move_falls_back_to_copy() {
    assert_eq!(first_step(true), MoveStep::Done);
    let s = first_step(false);
    assert_eq!(s, MoveStep::MakeDir);
    // atomic rename
    assert_eq!(next_step(next_step(s, true), true), MoveStep::Done);
    // rename fails: copy, then remove the source
    let s = next_step(next_step(s, true), false);
    assert_eq!(s, MoveStep::Copy);
    assert_eq!(next_step(s, false), MoveStep::Failed);
    let s = next_step(s, true);
    assert_eq!(s, MoveStep::RemoveSource);
    assert_eq!(next_step(s, true), MoveStep::Done);
    assert_eq!(next_step(MoveStep::MakeDir, false), MoveStep::Failed);
}

#[test]
fn relevant_events() {
    assert!(filter_event(Some(EventKind::Close { write: true })));
    assert!(!filter_event(Some(EventKind::Close { write: false })));
    assert!(filter_event(Some(EventKind::Rename)));
    assert!(!filter_event(Some(EventKind::Other)));
    assert!(!filter_event(None));
}

#[test]
fn burst_of_close_writes_triggers_once() {
    let close = WatchInput::Event(Some(EventKind::Close { write: true }));
    let mut state = WatchState::Idle;
    let mut triggers = 0;
    let mut waits = 0;
    for input in [close, close, close, close, close, WatchInput::Settled] {
        let (s, a) = step(state, input);
        state = s;
        match a {
            WatchAction::Trigger => triggers += 1,
            WatchAction::Wait => waits += 1,
            WatchAction::Nothing => {}
        }
    }
    assert_eq!(triggers, 1);
    assert_eq!(waits, 1);
    assert_eq!(state, WatchState::Idle);
}

#[test]
fn irrelevant_events_trigger_nothing() {
    let (s, a) = step(WatchState::Idle, WatchInput::Event(Some(EventKind::Other)));
    assert_eq!((s, a), (WatchState::Idle, WatchAction::Nothing));
    let (s, a) = step(s, WatchInput::Settled);
    assert_eq!((s, a), (WatchState::Idle, WatchAction::Nothing));
}

#[test]
fn stages_in_order() {
    let mut c = TaskConfig::default();
    assert_eq!(run(&c), vec![Stage::Prepare]);
    assert!(!any_enabled(&c));
    c.enable_sync = true;
    c.enable_repo = true;
    assert_eq!(run(&c), vec![Stage::Prepare, Stage::Repo, Stage::Sync]);
    c.enable_inbox = true;
    assert_eq!(run(&c), vec![Stage::Prepare, Stage::Repo, Stage::Inbox, Stage::Sync]);
    assert!(any_enabled(&c));
}

#[test]
fn prepared_directories() {
    let c = TaskConfig { inbox_dir: "/i".into(), repo_dir: "/r".into(), sync_dir: "/s".into(), ..Default::default() };
    assert_eq!(prepare_dirs(&c), vec![("/i".to_string(), 0o770), ("/r".to_string(), 0o700), ("/s".to_string(), 0o700)]);
    let s = status(&c);
    assert_eq!(s[0], ("inbox", "/i".to_string()));
    assert_eq!(s[2], ("sync", "/s".to_string()));
}

#[test]
fn disk_usage_bytes() {
    let u = report_disk_usage(1000, 250, 4096).unwrap();
    assert_eq!(u.total, 4_096_000);
    assert_eq!(u.avail, 1_024_000);
    assert!(report_disk_usage(u64::MAX, 1, 2).is_none());
}

#[test]
fn sync_decisions() {
    assert_eq!(parse_version("rclone v1.66.0\n- os/version: x"), Some(("rclone".to_string(), "v1.66.0".to_string())));
    assert_eq!(parse_version("rclone"), None);
    assert_eq!(deb_arch("x86_64"), Some("amd64"));
    assert_eq!(deb_arch("aarch64"), Some("arm64"));
    assert_eq!(deb_arch("arm"), Some("arm-v7"));
    assert_eq!(deb_arch("x86"), Some("386"));
    assert_eq!(deb_arch("riscv64"), None);
    assert_eq!(deb_file_name("linux", "amd64"), "rclone-current-linux-amd64.deb");
    assert!(!needs_update("v1.66.0", "1.66.0"));
    assert!(needs_update("v1.65.0", "1.66.0"));
    let e = |d: bool| RemoteEntry { path: String::new(), name: String::new(), size: 0, is_dir: d, id: String::new() };
    assert_eq!(count_entries(&vec![e(true), e(false), e(false)]), (1, 2));
    let mut c = TaskConfig::default();
    assert_eq!(sync(&c), vec![SyncStep::CheckRclone]);
    c.remote = "gd:".into();
    c.check_rclone_update = true;
    assert_eq!(sync(&c), vec![SyncStep::CheckRclone, SyncStep::CheckUpdate, SyncStep::StorageUsage, SyncStep::List]);
}

#[test]
fn version_text() {
    assert_eq!(build_profile("true"), "debug");
    assert_eq!(build_profile("false"), "release");
    let b = BuildInfo { pkg_version: "0.1.0", git_branch: "main", git_describe: "v0.1", git_date: "2024-01-01", build_debug: "false" };
    assert_eq!(version_vec(&b), vec!["0.1.0".to_string(), "main v0.1 2024-01-01".to_string(), "Build: release".to_string()]);
    assert_eq!(version(&b), "0.1.0\nmain v0.1 2024-01-01\nBuild: release");
}
