use bkupsv::fssys::{parse_file_name, parse_size, FileInfo, Repository, SizeError, SubdirListing};

#[test]
fn test_parse_size() -> Result<(), SizeError> {
    assert_eq!(parse_size(&u64::MIN.to_string())?, u64::MIN);
    assert_eq!(parse_size("12345")?, 12345);
    assert_eq!(parse_size(&u64::MAX.to_string())?, u64::MAX);

    assert_eq!(parse_size("123k")?, 123u64 * 1024);
    assert_eq!(parse_size("123K")?, 123u64 * 1024);
    assert_eq!(parse_size("123m")?, 123u64 * 1024 * 1024);
    assert_eq!(parse_size("123M")?, 123u64 * 1024 * 1024);
    assert_eq!(parse_size("123g")?, 123u64 * 1024 * 1024 * 1024);
    assert_eq!(parse_size("123G")?, 123u64 * 1024 * 1024 * 1024);
    assert_eq!(parse_size("123t")?, 123u64 * 1024 * 1024 * 1024 * 1024);
    assert_eq!(parse_size("123T")?, 123u64 * 1024 * 1024 * 1024 * 1024);

    assert!(parse_size("").is_err());
    assert!(parse_size("k").is_err());
    assert!(parse_size("a").is_err());
    assert!(parse_size(&format!("{}k", u64::MAX)).is_err());

    Ok(())
}

#[test]
fn parse_size_error_kinds() {
    assert_eq!(parse_size(""), Err(SizeError::Empty));
    assert_eq!(parse_size("k"), Err(SizeError::Syntax));
    assert_eq!(parse_size("12x"), Err(SizeError::Syntax));
    assert_eq!(parse_size("1kk"), Err(SizeError::Syntax));
    assert_eq!(parse_size("18446744073709551616"), Err(SizeError::Overflow));
    assert_eq!(parse_size("18446744073709551615k"), Err(SizeError::Overflow));
    // a malformed string is a syntax error even where its digits overflow
    assert_eq!(parse_size("99999999999999999999x"), Err(SizeError::Syntax));
}

#[test]
fn parse_size_groups_add_up() {
    assert_eq!(parse_size("1k1"), Ok(1025));
    assert_eq!(parse_size("1g512m"), Ok((1u64 << 30) + (512u64 << 20)));
    assert_eq!(parse_size("0"), Ok(0));
    assert_eq!(parse_size("16777215t"), Ok(16777215u64 << 40));
    assert_eq!(parse_size("16777216t"), Err(SizeError::Overflow));
}

#[test]
fn test_parse_file_name() {
    assert_eq!(parse_file_name("/aaa/bbb/ccc/.hidden.zip"), None);
    assert_eq!(parse_file_name("/aaa/bbb/ccc/abc.txt"), None);
    assert_eq!(
        parse_file_name("/aaa/bbb/ccc/test-20240101.tar.gz"),
        Some((
            "test-20240101.tar.gz".into(),
            "test".into(),
            "20240101".into()
        ))
    );
}

fn parts(n: &str, t: &str, d: &str) -> Option<(String, String, String)> {
    Some((n.to_string(), t.to_string(), d.to_string()))
}

#[test]
fn parse_file_name_grammar() {
    assert_eq!(parse_file_name("test-20240101.tar.gz"), parts("test-20240101.tar.gz", "test", "20240101"));
    assert_eq!(parse_file_name("a1-20240101.zip"), parts("a1-20240101.zip", "a1", "20240101"));
    assert_eq!(parse_file_name("db_202401011200.7z"), parts("db_202401011200.7z", "db", "202401011200"));
    assert_eq!(parse_file_name("web20240101.tar.xz"), parts("web20240101.tar.xz", "web", "20240101"));
    assert_eq!(parse_file_name("x--20240101.tar.bz2"), parts("x--20240101.tar.bz2", "x-", "20240101"));
    assert_eq!(parse_file_name("20240101.zip"), parts("20240101.zip", "", "20240101"));
    assert_eq!(parse_file_name("-20240101.zip"), parts("-20240101.zip", "", "20240101"));
    // fewer than eight digits
    assert_eq!(parse_file_name("test-2024010.zip"), None);
    // the extension starts at the first dot
    assert_eq!(parse_file_name("test-20240101.v2.zip"), None);
    assert_eq!(parse_file_name("test-20240101.gz"), None);
    assert_eq!(parse_file_name("test-20240101"), None);
    assert_eq!(parse_file_name("test-20240101a.zip"), None);
    assert_eq!(parse_file_name("dir/"), None);
    assert_eq!(parse_file_name(""), None);
}

fn file(path: String, size: u64) -> FileInfo {
    FileInfo { path, is_file: true, size: Some(size) }
}

#[test]
fn init_sorts_by_date_and_filters() {
    let files = vec![
        file("/r/tag/tag-20240103.zip".to_string(), 3),
        file("/r/tag/tag-20240101.zip".to_string(), 1),
        file("/r/tag/other-20240102.zip".to_string(), 9),
        file("/r/tag/notes.txt".to_string(), 9),
        FileInfo { path: "/r/tag/tag-20240104.zip".to_string(), is_file: false, size: Some(4) },
        FileInfo { path: "/r/tag/tag-20240105.zip".to_string(), is_file: true, size: None },
        file("/r/tag/tag_20240102.7z".to_string(), 2),
    ];
    let listing = vec![
        SubdirListing { name: Some("tag".to_string()), is_dir: true, files: Some(files) },
        SubdirListing { name: Some("file.zip".to_string()), is_dir: false, files: None },
        SubdirListing { name: None, is_dir: true, files: Some(vec![]) },
        SubdirListing { name: Some("unreadable".to_string()), is_dir: true, files: None },
        SubdirListing { name: Some("empty".to_string()), is_dir: true, files: Some(vec![]) },
    ];
    let repo = Repository::init("/r".to_string(), listing);
    assert_eq!(repo.root_dir, "/r");
    assert_eq!(repo.data.len(), 2);
    assert_eq!(repo.data[0].0, "tag");
    let dates: Vec<&str> = repo.data[0].1.iter().map(|e| e.date.as_str()).collect();
    assert_eq!(dates, vec!["20240101", "20240102", "20240103"]);
    let sizes: Vec<u64> = repo.data[0].1.iter().map(|e| e.size).collect();
    assert_eq!(sizes, vec![1, 2, 3]);
    assert_eq!(repo.data[0].1[1].path, "/r/tag/tag_20240102.7z");
    assert_eq!(repo.data[1].0, "empty");
    assert!(repo.data[1].1.is_empty());
}

#[test]
fn init_keeps_listing_order_for_equal_dates() {
    let files = vec![
        file("/r/t/t-20240102.zip".to_string(), 1),
        file("/r/t/t-20240101.zip".to_string(), 2),
        file("/r/t/t-20240102.7z".to_string(), 3),
        file("/r/t/t-20240101.7z".to_string(), 4),
    ];
    let listing = vec![SubdirListing { name: Some("t".to_string()), is_dir: true, files: Some(files) }];
    let repo = Repository::init("/r".to_string(), listing);
    let sizes: Vec<u64> = repo.data[0].1.iter().map(|e| e.size).collect();
    assert_eq!(sizes, vec![2, 4, 1, 3]);
}

#[test]
fn parse_file_name_reads_the_last_component() {
    let expected = parts("test-20240101.zip", "test", "20240101");
    assert_eq!(parse_file_name("a/test-20240101.zip/"), expected);
    assert_eq!(parse_file_name("a/test-20240101.zip//"), expected);
    assert_eq!(parse_file_name("a/test-20240101.zip/."), expected);
    assert_eq!(parse_file_name("a/test-20240101.zip/./"), expected);
    assert_eq!(parse_file_name("test-20240101.zip"), expected);
    assert_eq!(parse_file_name("a/test-20240101.zip/.."), None);
    assert_eq!(parse_file_name("/"), None);
    assert_eq!(parse_file_name("."), None);
    assert_eq!(parse_file_name("a/test-20240101.zip/x"), None);
}

#[test]
fn init_keeps_one_bucket_per_tag() {
    let first = vec![file("/r/t/t-20240101.zip".to_string(), 1)];
    let second = vec![file("/r/t/t-20240102.zip".to_string(), 2)];
    let listing = vec![
        SubdirListing { name: Some("t".to_string()), is_dir: true, files: Some(first) },
        SubdirListing { name: Some("t".to_string()), is_dir: true, files: Some(second) },
    ];
    let repo = Repository::init("/r".to_string(), listing);
    assert_eq!(repo.data.len(), 1);
    assert_eq!(repo.data[0].1.len(), 1);
    assert_eq!(repo.data[0].1[0].size, 1);
}
