use bkupsv::fssys::SizeError;
use bkupsv::{full_argv, help_version_filter, run_args, CliError, CliErrorKind, CliOutcome};

#[test]
fn run_help() -> Result<(), CliError> {
    run_args(&["-h"])?;
    run_args(&["--help"])?;

    Ok(())
}

#[test]
fn run_version() -> Result<(), CliError> {
    run_args(&["-V"])?;
    run_args(&["--version"])?;

    Ok(())
}

#[test]
fn help_and_version_are_shown() {
    assert!(matches!(run_args(&["--help"]), Ok(CliOutcome::Show(t)) if t.contains("--keep-size")));
    assert!(matches!(run_args(&["--version"]), Ok(CliOutcome::Show(t)) if t.contains("0.1.0")));
}

#[test]
fn unknown_argument_is_an_error() {
    match run_args(&["--no-such-option"]) {
        Err(e) => assert_eq!(e.kind, CliErrorKind::Other),
        Ok(_) => panic!("accepted an unknown option"),
    }
    assert!(run_args(&["--keep-count", "x"]).is_err());
}

#[test]
fn options_and_defaults() {
    let o = match run_args(&[]) {
        Ok(CliOutcome::Run(o)) => o,
        _ => panic!("no options"),
    };
    assert_eq!(o.inbox_dir, "/tmp/inbox");
    assert_eq!(o.repo_dir, "/tmp/repo");
    assert_eq!(o.sync_dir, "/tmp/sync");
    assert_eq!(o.log_file, "bkupsv.log");
    assert_eq!(o.keep_count, 0);
    assert_eq!(o.keep_size, "0");
    assert!(!o.task_all && !o.dry_run && !o.watch);

    let o = match run_args(&["-t", "-n", "--keep-count", "3", "--keep-size", "2k", "--remote", "gd"]) {
        Ok(CliOutcome::Run(o)) => o,
        _ => panic!("no options"),
    };
    assert!(o.task_all && o.dry_run);
    assert_eq!(o.keep_count, 3);
    let c = o.task_config().unwrap();
    assert!(c.enable_repo && c.enable_inbox && c.enable_sync && c.dry_run);
    assert_eq!(c.keep_count, 3);
    assert_eq!(c.keep_size, 2048);
    assert_eq!(c.remote, "gd:");
}

#[test]
fn task_config_reports_bad_size() {
    let mut o = match run_args(&["--task-repo", "--keep-size", "12q"]) {
        Ok(CliOutcome::Run(o)) => o,
        _ => panic!("no options"),
    };
    assert!(matches!(o.task_config(), Err(SizeError::Syntax)));
    o.keep_size = "5".to_string();
    let c = o.task_config().unwrap();
    assert!(c.enable_repo && !c.enable_inbox && !c.enable_sync);
    assert_eq!(c.remote, "");
}

#[test]
fn program_name_comes_first() {
    assert_eq!(full_argv(&["-n", "--watch"]), vec!["bkupsv".to_string(), "-n".to_string(), "--watch".to_string()]);
    assert_eq!(full_argv(&[]), vec!["bkupsv".to_string()]);
}

#[test]
fn help_and_version_are_not_failures() {
    let shown = help_version_filter(CliError { kind: CliErrorKind::DisplayVersion, message: "v".to_string() });
    assert_eq!(shown.unwrap(), "v");
    let failed = help_version_filter(CliError { kind: CliErrorKind::Other, message: "bad".to_string() });
    assert_eq!(failed.unwrap_err().message, "bad");
}
