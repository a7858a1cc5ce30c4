//! Backup-archive housekeeping: archive naming, repository retention, inbox ingestion and
//! the debounced change watcher, with the command line that configures them.
use vstd::prelude::*;

use clap::error::ErrorKind;
use clap::{Arg, ArgAction, ArgMatches, Command};

pub mod fssys;
pub mod task;
pub mod version;

use crate::fssys::{parse_size, size_of_text, SizeError};
use crate::task::TaskConfig;
use vstd::string::StringExecFns;

verus! {

#[verifier::external_type_specification]
#[verifier::external_body]
pub struct ExCommand(Command);

#[verifier::external_type_specification]
#[verifier::external_body]
pub struct ExArgMatches(ArgMatches);

/// The kinds of command-line failure that the program tells apart.
#[derive(Debug, Clone, Copy, PartialEq, Eq, Structural)]
pub enum CliErrorKind {
    /// `-h` / `--help`.
    DisplayHelp,
    /// Help shown because something required is missing.
    DisplayHelpOnMissingArgument,
    /// `-V` / `--version`.
    DisplayVersion,
    /// A real error in the arguments.
    Other,
}

/// A command-line failure, with the text to show.
#[derive(Debug)]
pub struct CliError {
    pub kind: CliErrorKind,
    pub message: String,
}

/// The settings of a run, as the command line (or a configuration file) gives them.
#[derive(Debug)]
pub struct Options {
    pub log_level: String,
    pub log_file: String,
    pub task_all: bool,
    pub task_repo: bool,
    pub task_inbox: bool,
    pub task_sync: bool,
    pub inbox_dir: String,
    pub repo_dir: String,
    pub sync_dir: String,
    pub keep_count: u32,
    pub keep_size: String,
    pub check_rclone_update: bool,
    pub remote: String,
    pub dry_run: bool,
    pub watch: bool,
    pub config_file: String,
    pub gen_config: String,
}

/// What the command line asks for.
#[derive(Debug)]
pub enum CliOutcome {
    /// Show this text (help or version) and stop.
    Show(String),
    /// Run with these settings.
    Run(Options),
}

/// The long name and short name of each argument added to a command, in order; clap adds
/// its own `--help` and `--version` when it parses.
pub uninterp spec fn command_args(c: Command) -> Seq<(Seq<char>, Option<char>)>;

/// The arguments that clap adds itself when it parses: `--help`/`-h` and `--version`/`-V`.
pub open spec fn builtin_args() -> Seq<(Seq<char>, Option<char>)> {
    seq![
        (seq!['h', 'e', 'l', 'p'], Some('h')),
        (seq!['v', 'e', 'r', 's', 'i', 'o', 'n'], Some('V')),
    ]
}

pub open spec fn arg_names_differ(a: (Seq<char>, Option<char>), b: (Seq<char>, Option<char>)) -> bool {
    a.0 != b.0 && (a.1 is Some ==> a.1 != b.1)
}

pub open spec fn arg_names_ok(a: (Seq<char>, Option<char>)) -> bool {
    !(a.0.len() > 0 && a.0[0] == '-') && a.1 != Some('-')
}

/// Arguments that clap accepts in one command: no long name starts with `-`, no short name
/// is `-`, and long and short names are unique, also against the built-in ones.
pub open spec fn args_valid(a: Seq<(Seq<char>, Option<char>)>) -> bool {
    let all = a + builtin_args();
    &&& forall|i: int| 0 <= i < all.len() ==> arg_names_ok(#[trigger] all[i])
    &&& forall|i: int, j: int|
        0 <= i < j < all.len() ==> arg_names_differ(#[trigger] all[i], #[trigger] all[j])
}

/// Relies on clap's `Command::new`, `about`, `version` and `long_version`: a command with this
/// name and these texts, and no arguments yet.
#[verifier::external_body]
fn new_command(name: &str, about: &str, version: &str, long_version: String) -> (r: Command)
    ensures
        command_args(r) == Seq::<(Seq<char>, Option<char>)>::empty(),
{
    Command::new(name.to_string()).about(about.to_string()).version(version.to_string())
        .long_version(long_version)
}

/// Relies on clap's `Command::arg` with an `Arg` whose id and long name are `id`, with an
/// optional short name (never `-`) and a help text, set to true when present
/// (`ArgAction::SetTrue`).
#[verifier::external_body]
fn with_flag(cmd: Command, id: &str, short: Option<char>, help: &str) -> (r: Command)
    requires
        short != Some('-'),
    ensures
        command_args(r) == command_args(cmd).push((id@, short)),
{
    cmd.arg(
        Arg::new(id.to_string()).long(id.to_string()).short(short).help(help.to_string()).action(
            ArgAction::SetTrue,
        ),
    )
}

/// Relies on clap's `Command::arg` with an `Arg` whose id and long name are `id`, with an
/// optional short name (never `-`), that takes one string value, with a value name, a default
/// value and a help text (`ArgAction::Set`).
#[verifier::external_body]
fn with_value(
    cmd: Command,
    id: &str,
    short: Option<char>,
    value_name: &str,
    default: &str,
    help: &str,
) -> (r: Command)
    requires
        short != Some('-'),
    ensures
        command_args(r) == command_args(cmd).push((id@, short)),
{
    cmd.arg(
        Arg::new(id.to_string()).long(id.to_string()).short(short).value_name(
            value_name.to_string(),
        ).default_value(default.to_string()).help(help.to_string()).action(ArgAction::Set),
    )
}

/// Relies on clap's `Command::arg` with an `Arg` whose id and long name are `id`, with an
/// optional short name (never `-`), that takes one `u32` value
/// (`RangedU64ValueParser::<u32>`), with a value name, default value and help text.
#[verifier::external_body]
fn with_u32_value(
    cmd: Command,
    id: &str,
    short: Option<char>,
    value_name: &str,
    default: &str,
    help: &str,
) -> (r: Command)
    requires
        short != Some('-'),
    ensures
        command_args(r) == command_args(cmd).push((id@, short)),
{
    cmd.arg(
        Arg::new(id.to_string()).long(id.to_string()).short(short).value_name(
            value_name.to_string(),
        ).default_value(default.to_string()).help(help.to_string()).action(ArgAction::Set)
            .value_parser(clap::builder::RangedU64ValueParser::<u32>::new()),
    )
}

/// Relies on clap's `Command::try_get_matches_from` (the first item is the program name); a
/// failure carries its `ErrorKind` and its rendered text. Its debug assertions panic on
/// arguments that clash, which `requires` leaves out.
#[verifier::external_body]
fn get_matches(cmd: Command, argv: Vec<String>) -> (r: Result<ArgMatches, CliError>)
    requires
        args_valid(command_args(cmd)),
{
    match cmd.try_get_matches_from(argv) {
        Ok(m) => Ok(m),
        Err(e) => Err(CliError {
            kind: match e.kind() {
                ErrorKind::DisplayHelp => CliErrorKind::DisplayHelp,
                ErrorKind::DisplayHelpOnMissingArgumentOrSubcommand => CliErrorKind::DisplayHelpOnMissingArgument,
                ErrorKind::DisplayVersion => CliErrorKind::DisplayVersion,
                _ => CliErrorKind::Other,
            },
            message: e.render().to_string(),
        }),
    }
}

/// Relies on clap's `ArgMatches::try_get_one::<bool>`: the value of a flag, if it has one.
#[verifier::external_body]
fn flag_value(m: &ArgMatches, id: &str) -> Option<bool> {
    m.try_get_one::<bool>(id).ok().flatten().copied()
}

/// Relies on clap's `ArgMatches::try_get_one::<String>`: the value of an argument, if any.
#[verifier::external_body]
fn string_value(m: &ArgMatches, id: &str) -> Option<String> {
    m.try_get_one::<String>(id).ok().flatten().cloned()
}

/// Relies on clap's `ArgMatches::try_get_one::<u32>`: the value of an argument, if any.
#[verifier::external_body]
fn u32_value(m: &ArgMatches, id: &str) -> Option<u32> {
    m.try_get_one::<u32>(id).ok().flatten().copied()
}

/// Help and version requests are not failures: their text is shown and the program stops.
/// Any other failure is returned as it is.
pub fn help_version_filter(err: CliError) -> (r: Result<String, CliError>)
    ensures
        match r {
            Ok(text) => err.kind != CliErrorKind::Other && text@ == err.message@,
            Err(e) => err.kind == CliErrorKind::Other && e.kind == err.kind && e.message@
                == err.message@,
        },
{
    match err.kind {
        CliErrorKind::Other => Err(err),
        _ => Ok(err.message),
    }
}

/// How an argument takes its value.
#[derive(Clone, Copy)]
enum ArgKind {
    /// No value: present or not.
    Flag,
    /// One string.
    Text,
    /// One `u32`.
    Count,
}

/// One argument of the command line.
struct ArgSpec {
    id: &'static str,
    short: Option<char>,
    kind: ArgKind,
    value_name: &'static str,
    default: &'static str,
    help: &'static str,
}

spec fn spec_names(t: Seq<ArgSpec>) -> Seq<(Seq<char>, Option<char>)> {
    t.map_values(|a: ArgSpec| (a.id@, a.short))
}

fn flag(id: &'static str, short: Option<char>, help: &'static str) -> ArgSpec {
    ArgSpec { id, short, kind: ArgKind::Flag, value_name: "", default: "", help }
}

fn text(
    id: &'static str,
    short: Option<char>,
    value_name: &'static str,
    default: &'static str,
    help: &'static str,
) -> ArgSpec {
    ArgSpec { id, short, kind: ArgKind::Text, value_name, default, help }
}

/// The arguments of the daemon's command line.
fn arg_table() -> Vec<ArgSpec> {
    let mut t: Vec<ArgSpec> = Vec::new();
    t.push(text("log-level", None, "LEVEL", "info", "Log level"));
    t.push(text("log-file", None, "FILE", "bkupsv.log", "Log file (empty to disable)"));
    t.push(flag("task-all", Some('t'), "Enable all the tasks"));
    t.push(flag("task-repo", None, "Enable repository clean task"));
    t.push(flag("task-inbox", None, "Enable inbox > repository move task"));
    t.push(flag("task-sync", None, "Enable sync with cloud storage task"));
    t.push(text("inbox-dir", None, "DIR", "/tmp/inbox", "Inbox directory path"));
    t.push(text("repo-dir", None, "DIR", "/tmp/repo", "Repository directory path"));
    t.push(text("sync-dir", None, "DIR", "/tmp/sync", "Cloud sync directory path"));
    t.push(
        ArgSpec {
            id: "keep-count",
            short: None,
            kind: ArgKind::Count,
            value_name: "COUNT",
            default: "0",
            help: "repo-task: condition to keep archive files (0 to disable)",
        },
    );
    t.push(
        text(
            "keep-size",
            None,
            "SIZE",
            "0",
            "repo-task: condition to keep archive files (0 to disable)",
        ),
    );
    t.push(flag("check-rclone-update", None, "sync-task: check rclone update (apt system only)"));
    t.push(text("remote", None, "REMOTE", "", "sync-task: (local path if empty)"));
    t.push(flag("dry-run", Some('n'), "Dry-run"));
    t.push(flag("watch", Some('w'), "Watch mode"));
    t.push(
        text(
            "config-file",
            Some('c'),
            "FILE",
            "",
            "Read parameters from TOML file (other command line parameters will be ignored)",
        ),
    );
    t.push(text("gen-config", Some('g'), "FILE", "", "Generate a config file template and exit"));
    t
}

pub open spec fn names_view(v: Seq<(&str, Option<char>)>) -> Seq<(Seq<char>, Option<char>)> {
    v.map_values(|p: (&str, Option<char>)| (p.0@, p.1))
}

/// Whether clap accepts these arguments in one command (see [`args_valid`]).
fn names_valid(t: &Vec<ArgSpec>) -> (r: bool)
    ensures
        r == args_valid(spec_names(t@)),
{
    let mut all: Vec<(&str, Option<char>)> = Vec::new();
    let mut i: usize = 0;
    while i < t.len()
        invariant
            0 <= i <= t@.len(),
            names_view(all@) =~= spec_names(t@.take(i as int)),
        decreases t@.len() - i,
    {
        let ghost before = all@;
        all.push((t[i].id, t[i].short));
        assert(all@ =~= before.push((t[i as int].id, t[i as int].short)));
        assert(t@.take(i + 1) =~= t@.take(i as int).push(t[i as int]));
        assert(names_view(all@) =~= names_view(before).push((t[i as int].id@, t[i as int].short)));
        assert(spec_names(t@.take(i + 1)) =~= spec_names(t@.take(i as int)).push(
            (t[i as int].id@, t[i as int].short),
        ));
        i = i + 1;
    }
    proof {
        reveal_strlit("help");
        reveal_strlit("version");
        assert("help"@ =~= seq!['h', 'e', 'l', 'p']);
        assert("version"@ =~= seq!['v', 'e', 'r', 's', 'i', 'o', 'n']);
        assert(t@.take(t@.len() as int) =~= t@);
    }
    all.push(("help", Some('h')));
    all.push(("version", Some('V')));
    let ghost a = names_view(all@);
    assert(a =~= spec_names(t@) + builtin_args());
    let n = all.len();
    let mut i: usize = 0;
    while i < n
        invariant
            n == all@.len() == a.len(),
            a == names_view(all@),
            a == spec_names(t@) + builtin_args(),
            0 <= i <= n,
            forall|k: int| 0 <= k < i ==> arg_names_ok(#[trigger] a[k]),
            forall|k: int, l: int| 0 <= k < i && k < l < n ==> arg_names_differ(#[trigger] a[k], #[trigger] a[l]),
        decreases n - i,
    {
        let (id, short) = all[i];
        assert(a[i as int] == (id@, short));
        if id.unicode_len() > 0 && id.get_char(0) == '-' {
            assert(!arg_names_ok(a[i as int]));
            return false;
        }
        match short {
            Some(c) => if c == '-' {
                assert(!arg_names_ok(a[i as int]));
                return false;
            },
            None => {},
        }
        let mut j: usize = i + 1;
        while j < n
            invariant
                n == all@.len() == a.len(),
                a == names_view(all@),
                a == spec_names(t@) + builtin_args(),
                0 <= i < n,
                i < j <= n,
                a[i as int] == (id@, short),
                forall|l: int| i < l < j ==> arg_names_differ(a[i as int], #[trigger] a[l]),
            decreases n - j,
        {
            let (other, other_short) = all[j];
            assert(a[j as int] == (other@, other_short));
            if crate::fssys::str_equals(id, other) {
                assert(!arg_names_differ(a[i as int], a[j as int]));
                return false;
            }
            match (short, other_short) {
                (Some(x), Some(y)) => if x == y {
                    assert(!arg_names_differ(a[i as int], a[j as int]));
                    return false;
                },
                _ => {},
            }
            j = j + 1;
        }
        i = i + 1;
    }
    true
}

/// The command line of the daemon; `Err` where its argument names clash.
fn command(long_version: String) -> (r: Result<Command, CliError>)
    ensures
        r matches Ok(c) ==> args_valid(command_args(c)),
        r matches Err(e) ==> e.kind == CliErrorKind::Other,
{
    let table = arg_table();
    if !names_valid(&table) {
        return Err(
            CliError {
                kind: CliErrorKind::Other,
                message: "argument names clash".to_owned(),
            },
        );
    }
    let ghost all = spec_names(table@) + builtin_args();
    let mut c = new_command("bkupsv", "Backup files maintenance daemon", "0.1.0", long_version);
    let mut i: usize = 0;
    assert(spec_names(table@.take(0)) =~= Seq::<(Seq<char>, Option<char>)>::empty());
    while i < table.len()
        invariant
            0 <= i <= table@.len(),
            all == spec_names(table@) + builtin_args(),
            args_valid(spec_names(table@)),
            command_args(c) == spec_names(table@.take(i as int)),
        decreases table@.len() - i,
    {
        let a = &table[i];
        assert(all[i as int] == (a.id@, a.short));
        assert(arg_names_ok(all[i as int]));
        assert(spec_names(table@.take(i + 1)) =~= spec_names(table@.take(i as int)).push(
            (a.id@, a.short),
        ));
        c = match a.kind {
            ArgKind::Flag => with_flag(c, a.id, a.short, a.help),
            ArgKind::Text => with_value(c, a.id, a.short, a.value_name, a.default, a.help),
            ArgKind::Count => with_u32_value(c, a.id, a.short, a.value_name, a.default, a.help),
        };
        i = i + 1;
    }
    assert(table@.take(table@.len() as int) =~= table@);
    Ok(c)
}

fn flag_of(m: &ArgMatches, id: &str) -> bool {
    match flag_value(m, id) {
        Some(b) => b,
        None => false,
    }
}

fn string_of(m: &ArgMatches, id: &str) -> String {
    match string_value(m, id) {
        Some(s) => s,
        None => String::new(),
    }
}

fn options_of(m: &ArgMatches) -> Options {
    Options {
        log_level: string_of(m, "log-level"),
        log_file: string_of(m, "log-file"),
        task_all: flag_of(m, "task-all"),
        task_repo: flag_of(m, "task-repo"),
        task_inbox: flag_of(m, "task-inbox"),
        task_sync: flag_of(m, "task-sync"),
        inbox_dir: string_of(m, "inbox-dir"),
        repo_dir: string_of(m, "repo-dir"),
        sync_dir: string_of(m, "sync-dir"),
        keep_count: match u32_value(m, "keep-count") {
            Some(n) => n,
            None => 0,
        },
        keep_size: string_of(m, "keep-size"),
        check_rclone_update: flag_of(m, "check-rclone-update"),
        remote: string_of(m, "remote"),
        dry_run: flag_of(m, "dry-run"),
        watch: flag_of(m, "watch"),
        config_file: string_of(m, "config-file"),
        gen_config: string_of(m, "gen-config"),
    }
}

/// Reads a full command line (program name first): the settings of a run, or the help or
/// version text to show, or the failure. `long_version` is what `--version` shows.
pub fn parse_args(argv: Vec<String>, long_version: String) -> (r: Result<CliOutcome, CliError>)
    ensures
        r matches Err(e) ==> e.kind == CliErrorKind::Other,
{
    let cmd = match command(long_version) {
        Ok(c) => c,
        Err(e) => {
            return Err(e);
        },
    };
    match get_matches(cmd, argv) {
        Ok(m) => Ok(CliOutcome::Run(options_of(&m))),
        Err(e) => match help_version_filter(e) {
            Ok(text) => Ok(CliOutcome::Show(text)),
            Err(e) => Err(e),
        },
    }
}

/// The program name of the command line.
pub open spec fn program_name() -> Seq<char> {
    seq!['b', 'k', 'u', 'p', 's', 'v']
}

/// A full command line: the program name, then the given arguments.
pub fn full_argv(argv1: &[&str]) -> (r: Vec<String>)
    ensures
        r@.len() == argv1@.len() + 1,
        r@[0]@ == program_name(),
        forall|i: int| 0 <= i < argv1@.len() ==> (#[trigger] r@[i + 1])@ == argv1@[i]@,
{
    proof {
        reveal_strlit("bkupsv");
        assert("bkupsv"@ =~= program_name());
    }
    let mut argv: Vec<String> = Vec::new();
    argv.push("bkupsv".to_owned());
    let mut i: usize = 0;
    while i < argv1.len()
        invariant
            0 <= i <= argv1@.len(),
            argv@.len() == i + 1,
            argv@[0]@ == program_name(),
            forall|j: int| 0 <= j < i ==> (#[trigger] argv@[j + 1])@ == argv1@[j]@,
        decreases argv1@.len() - i,
    {
        argv.push(argv1[i].to_owned());
        i = i + 1;
    }
    argv
}

/// Reads the arguments after the program name, as [`parse_args`] does.
pub fn run_args(argv1: &[&str]) -> (r: Result<CliOutcome, CliError>)
    ensures
        r matches Err(e) ==> e.kind == CliErrorKind::Other,
{
    parse_args(full_argv(argv1), "0.1.0".to_owned())
}

/// The remote name as the sync tool expects it: `name:`, or empty for none.
pub open spec fn remote_spec(remote: Seq<char>) -> Seq<char> {
    if remote.len() == 0 {
        remote
    } else {
        remote.push(':')
    }
}

impl Options {
    /// The run parameters these settings give: `--task-all` enables every stage, the remote
    /// gets its `:`, and the size limit is parsed (its error is returned).
    pub fn task_config(&self) -> (r: Result<TaskConfig, SizeError>)
        ensures
            match r {
                Ok(c) => {
                    &&& size_of_text(self.keep_size@) == Ok::<u64, SizeError>(c.keep_size)
                    &&& c.dry_run == self.dry_run
                    &&& c.enable_repo == (self.task_all || self.task_repo)
                    &&& c.enable_inbox == (self.task_all || self.task_inbox)
                    &&& c.enable_sync == (self.task_all || self.task_sync)
                    &&& c.inbox_dir@ == self.inbox_dir@
                    &&& c.repo_dir@ == self.repo_dir@
                    &&& c.sync_dir@ == self.sync_dir@
                    &&& c.keep_count == self.keep_count
                    &&& c.check_rclone_update == self.check_rclone_update
                    &&& c.remote@ == remote_spec(self.remote@)
                },
                Err(e) => size_of_text(self.keep_size@) == Err::<u64, SizeError>(e),
            },
    {
        let keep_size = match parse_size(self.keep_size.as_str()) {
            Ok(n) => n,
            Err(e) => {
                return Err(e);
            },
        };
        let remote = if self.remote.as_str().unicode_len() == 0 {
            String::new()
        } else {
            let mut r = self.remote.clone();
            r.append(":");
            proof {
                reveal_strlit(":");
                assert(":"@ =~= seq![':']);
            }
            r
        };
        Ok(
            TaskConfig {
                dry_run: self.dry_run,
                enable_repo: self.task_all || self.task_repo,
                enable_inbox: self.task_all || self.task_inbox,
                enable_sync: self.task_all || self.task_sync,
                inbox_dir: self.inbox_dir.clone(),
                repo_dir: self.repo_dir.clone(),
                sync_dir: self.sync_dir.clone(),
                keep_count: self.keep_count,
                keep_size,
                check_rclone_update: self.check_rclone_update,
                remote,
            },
        )
    }
}

} // verus!
