use bkupsv::fssys::{FileInfo, Repository, SubdirListing};
use bkupsv::task::repo::{clean_one, removals, run, Decision};
use bkupsv::task::TaskConfig;

const TAG: &str = "test";

fn repository(names: &[String], size: u64) -> Repository {
    let files = names
        .iter()
        .map(|n| FileInfo { path: format!("/repo/{TAG}/{n}"), is_file: true, size: Some(size) })
        .collect();
    let listing = vec![SubdirListing { name: Some(TAG.to_string()), is_dir: true, files: Some(files) }];
    Repository::init("/repo".to_string(), listing)
}

fn names(total: u32) -> Vec<String> {
    (0..total).map(|i| format!("{TAG}-202401{i:0>2}.zip")).collect()
}

fn kept(plan: &[Vec<Decision>]) -> Vec<String> {
    plan[0].iter().filter(|d| !d.delete).map(|d| d.path.rsplit('/').next().unwrap().to_string()).collect()
}

#[test]
fn test_repo_clean_count() {
    const KEEP_COUNT: u32 = 3;
    const TOTAL: u32 = 10;

    let config = TaskConfig { repo_dir: "/repo".to_string(), keep_count: KEEP_COUNT, ..Default::default() };
    let all = names(TOTAL);
    let plan = run(&config, &repository(&all, 0));

    for i in 0..TOTAL as usize {
        assert_eq!(plan[0][i].path, format!("/repo/{TAG}/{}", all[i]));
        if i < (TOTAL - KEEP_COUNT) as usize {
            assert!(plan[0][i].delete);
        } else {
            assert!(!plan[0][i].delete);
        }
    }

    let plan = run(&config, &repository(&kept(&plan), 0));
    assert!(plan[0].iter().all(|d| !d.delete));
}

#[test]
fn test_repo_clean_size() {
    const KEEP_COUNT: u64 = 3;
    const FILE_SIZE: u64 = 1024;
    const KEEP_SIZE: u64 = FILE_SIZE * (KEEP_COUNT + 1) - 1;
    const TOTAL: u64 = 10;

    let config = TaskConfig { repo_dir: "/repo".to_string(), keep_size: KEEP_SIZE, ..Default::default() };
    let all = names(TOTAL as u32);
    let plan = run(&config, &repository(&all, FILE_SIZE));

    for i in 0..TOTAL as usize {
        if i < (TOTAL - KEEP_COUNT) as usize {
            assert!(plan[0][i].delete);
        } else {
            assert!(!plan[0][i].delete);
        }
    }

    let plan = run(&config, &repository(&kept(&plan), FILE_SIZE));
    assert!(plan[0].iter().all(|d| !d.delete));
}

#[test]
fn larger_rule_wins() {
    let all = names(10);
    // count asks for 2 removals, size (3 files of 100 fit in 300) for 7
    let config = TaskConfig { keep_count: 8, keep_size: 300, ..Default::default() };
    let plan = run(&config, &repository(&all, 100));
    assert_eq!(plan[0].iter().filter(|d| d.delete).count(), 7);
    // count asks for 9, size for 7
    let config = TaskConfig { keep_count: 1, keep_size: 300, ..Default::default() };
    let plan = run(&config, &repository(&all, 100));
    assert_eq!(plan[0].iter().filter(|d| d.delete).count(), 9);
}

#[test]
fn no_limits_keep_everything() {
    let all = names(5);
    let plan = run(&TaskConfig::default(), &repository(&all, 1 << 40));
    assert_eq!(plan[0].len(), 5);
    assert!(plan[0].iter().all(|d| !d.delete));
    // a count limit at or above the size of the bucket removes nothing
    let config = TaskConfig { keep_count: 5, ..Default::default() };
    assert!(run(&config, &repository(&all, 1))[0].iter().all(|d| !d.delete));
}

#[test]
fn huge_sizes_do_not_overflow() {
    let all = names(4);
    let config = TaskConfig { keep_size: u64::MAX, ..Default::default() };
    let plan = run(&config, &repository(&all, u64::MAX));
    assert_eq!(plan[0].iter().filter(|d| d.delete).count(), 3);
}

#[test]
fn dry_run_removes_nothing() {
    let all = names(10);
    let live = TaskConfig { keep_count: 3, ..Default::default() };
    let dry = TaskConfig { keep_count: 3, dry_run: true, ..Default::default() };
    let repo = repository(&all, 10);
    let live_plan = run(&live, &repo);
    let dry_plan = run(&dry, &repo);
    for (a, b) in live_plan[0].iter().zip(dry_plan[0].iter()) {
        assert_eq!(a.path, b.path);
        assert_eq!(a.delete, b.delete);
    }
    assert!(removals(&dry_plan, true).is_empty());
    let gone = removals(&live_plan, false);
    assert_eq!(gone.len(), 7);
    assert_eq!(gone[0], format!("/repo/{TAG}/{}", all[0]));
}

#[test]
fn clean_one_bucket() {
    let all = names(10);
    let repo = repository(&all, 1024);
    let config = TaskConfig { keep_size: 1024 * 4 - 1, ..Default::default() };
    let decisions = clean_one(&config, &repo.data[0].1);
    let deleted: Vec<bool> = decisions.iter().map(|d| d.delete).collect();
    assert_eq!(deleted, vec![true, true, true, true, true, true, true, false, false, false]);
}
