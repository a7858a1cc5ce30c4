//! The sync stage's decisions around the external `rclone` tool.
use vstd::prelude::*;
use vstd::string::StringExecFns;

use crate::fssys::str_equals;
use crate::task::TaskConfig;

verus! {

/// The Unicode White_Space characters, which `char::is_whitespace` tests for.
pub open spec fn is_white_space(c: char) -> bool {
    ||| '\u{9}' <= c && c <= '\u{d}'
    ||| c == ' ' || c == '\u{85}' || c == '\u{a0}' || c == '\u{1680}'
    ||| '\u{2000}' <= c && c <= '\u{200a}'
    ||| c == '\u{2028}' || c == '\u{2029}' || c == '\u{202f}' || c == '\u{205f}' || c == '\u{3000}'
}

/// The words of a text: its maximal runs of characters that are not white space, in order.
pub open spec fn words_of(s: Seq<char>) -> Seq<Seq<char>>
    decreases s.len(),
{
    if s.len() == 0 {
        Seq::empty()
    } else {
        let w = words_of(s.drop_last());
        let c = s.last();
        if is_white_space(c) {
            w
        } else if s.len() >= 2 && !is_white_space(s[s.len() - 2]) {
            w.drop_last().push(w.last().push(c))
        } else {
            w.push(seq![c])
        }
    }
}

/// Relies on `str::split_whitespace`: the sub-slices of `s` separated by any amount of
/// White_Space, in order, with no empty ones.
#[verifier::external_body]
fn split_words(s: &str) -> (r: Vec<String>)
    ensures
        r@.map_values(|w: String| w@) == words_of(s@),
{
    s.split_whitespace().map(|w| w.to_string()).collect()
}

/// The first two words, where there are two: `name version` of a version report.
pub fn first_two_words(words: &Vec<String>) -> (r: Option<(String, String)>)
    ensures
        match r {
            Some((a, b)) => words@.len() >= 2 && a@ == words@[0]@ && b@ == words@[1]@,
            None => words@.len() < 2,
        },
{
    if words.len() < 2 {
        None
    } else {
        Some((words[0].clone(), words[1].clone()))
    }
}

/// The program name and version from the output of `rclone version` (or the package and
/// version from `dpkg-deb -W`): its first two words.
pub fn parse_version(stdout: &str) -> (r: Option<(String, String)>)
    ensures
        match r {
            Some((a, b)) => words_of(stdout@).len() >= 2 && a@ == words_of(stdout@)[0] && b@
                == words_of(stdout@)[1],
            None => words_of(stdout@).len() < 2,
        },
{
    let words = split_words(stdout);
    let r = first_two_words(&words);
    proof {
        if words@.len() >= 2 {
            assert(words@.map_values(|w: String| w@)[0] == words@[0]@);
            assert(words@.map_values(|w: String| w@)[1] == words@[1]@);
        }
    }
    r
}

/// An entry of a remote listing (`rclone lsjson`).
pub struct RemoteEntry {
    pub path: String,
    pub name: String,
    pub size: u64,
    pub is_dir: bool,
    pub id: String,
}

pub open spec fn dir_count(v: Seq<RemoteEntry>) -> nat
    decreases v.len(),
{
    if v.len() == 0 {
        0
    } else {
        dir_count(v.drop_last()) + if v.last().is_dir {
            1nat
        } else {
            0nat
        }
    }
}

/// (directories, files) of a remote listing.
pub fn count_entries(files: &Vec<RemoteEntry>) -> (r: (usize, usize))
    ensures
        r.0 == dir_count(files@),
        r.0 + r.1 == files@.len(),
{
    let mut dirs: usize = 0;
    let mut i: usize = 0;
    while i < files.len()
        invariant
            0 <= i <= files@.len(),
            dirs == dir_count(files@.take(i as int)),
            dirs <= i,
        decreases files@.len() - i,
    {
        assert(files@.take(i + 1).drop_last() =~= files@.take(i as int));
        if files[i].is_dir {
            dirs = dirs + 1;
        }
        i = i + 1;
    }
    assert(files@.take(files@.len() as int) =~= files@);
    (dirs, files.len() - dirs)
}

/// The architecture name of rclone's Debian packages for a Rust target architecture.
pub open spec fn deb_arch_of(arch: Seq<char>) -> Option<Seq<char>> {
    if arch == seq!['x', '8', '6', '_', '6', '4'] {
        Some(seq!['a', 'm', 'd', '6', '4'])
    } else if arch == seq!['x', '8', '6'] {
        Some(seq!['3', '8', '6'])
    } else if arch == seq!['a', 'a', 'r', 'c', 'h', '6', '4'] {
        Some(seq!['a', 'r', 'm', '6', '4'])
    } else if arch == seq!['a', 'r', 'm'] {
        Some(seq!['a', 'r', 'm', '-', 'v', '7'])
    } else {
        None
    }
}

/// rclone's package architecture for `arch`, if it publishes one.
pub fn deb_arch(arch: &str) -> (r: Option<&'static str>)
    ensures
        match r {
            Some(a) => deb_arch_of(arch@) == Some(a@),
            None => deb_arch_of(arch@) is None,
        },
{
    proof {
        reveal_strlit("x86_64");
        reveal_strlit("x86");
        reveal_strlit("aarch64");
        reveal_strlit("arm");
        reveal_strlit("amd64");
        reveal_strlit("386");
        reveal_strlit("arm64");
        reveal_strlit("arm-v7");
        assert("x86_64"@ =~= seq!['x', '8', '6', '_', '6', '4']);
        assert("x86"@ =~= seq!['x', '8', '6']);
        assert("aarch64"@ =~= seq!['a', 'a', 'r', 'c', 'h', '6', '4']);
        assert("arm"@ =~= seq!['a', 'r', 'm']);
        assert("amd64"@ =~= seq!['a', 'm', 'd', '6', '4']);
        assert("386"@ =~= seq!['3', '8', '6']);
        assert("arm64"@ =~= seq!['a', 'r', 'm', '6', '4']);
        assert("arm-v7"@ =~= seq!['a', 'r', 'm', '-', 'v', '7']);
    }
    if str_equals(arch, "x86_64") {
        Some("amd64")
    } else if str_equals(arch, "x86") {
        Some("386")
    } else if str_equals(arch, "aarch64") {
        Some("arm64")
    } else if str_equals(arch, "arm") {
        Some("arm-v7")
    } else {
        None
    }
}

pub open spec fn deb_file_of(os: Seq<char>, arch: Seq<char>) -> Seq<char> {
    seq!['r', 'c', 'l', 'o', 'n', 'e', '-', 'c', 'u', 'r', 'r', 'e', 'n', 't', '-'] + os + seq!['-']
        + arch + seq!['.', 'd', 'e', 'b']
}

/// The name of rclone's current Debian package: `rclone-current-<os>-<arch>.deb`.
pub fn deb_file_name(os: &str, arch: &str) -> (r: String)
    ensures
        r@ == deb_file_of(os@, arch@),
{
    proof {
        reveal_strlit("rclone-current-");
        reveal_strlit("-");
        reveal_strlit(".deb");
        assert("rclone-current-"@ =~= seq![
            'r', 'c', 'l', 'o', 'n', 'e', '-', 'c', 'u', 'r', 'r', 'e', 'n', 't', '-',
        ]);
        assert("-"@ =~= seq!['-']);
        assert(".deb"@ =~= seq!['.', 'd', 'e', 'b']);
    }
    let mut s = "rclone-current-".to_owned();
    s.append(os);
    s.append("-");
    s.append(arch);
    s.append(".deb");
    s
}

/// Whether the package version `pkg_ver` differs from the installed version `current`, which
/// rclone reports with a leading `v`.
pub fn needs_update(current: &str, pkg_ver: &str) -> (r: bool)
    ensures
        r == (current@ != seq!['v'] + pkg_ver@),
{
    proof {
        reveal_strlit("v");
        assert("v"@ =~= seq!['v']);
    }
    let mut tagged = "v".to_owned();
    tagged.append(pkg_ver);
    !str_equals(current, tagged.as_str())
}

/// A step of the sync stage.
#[derive(Debug, Clone, Copy, PartialEq, Eq, Structural)]
pub enum SyncStep {
    /// Run `rclone version` and read its version.
    CheckRclone,
    /// Compare it with the current Debian package.
    CheckUpdate,
    /// Report the remote's capacity.
    StorageUsage,
    /// List the remote and count its directories and files.
    List,
}

pub open spec fn sync_steps(config: TaskConfig) -> Seq<SyncStep> {
    seq![SyncStep::CheckRclone] + (if config.check_rclone_update {
        seq![SyncStep::CheckUpdate]
    } else {
        Seq::empty()
    }) + (if config.remote@.len() > 0 {
        seq![SyncStep::StorageUsage, SyncStep::List]
    } else {
        Seq::empty()
    })
}

/// The steps of the sync stage, in order; without a remote only the tool is checked.
pub fn run(config: &TaskConfig) -> (r: Vec<SyncStep>)
    ensures
        r@ == sync_steps(*config),
{
    let mut steps: Vec<SyncStep> = Vec::new();
    steps.push(SyncStep::CheckRclone);
    if config.check_rclone_update {
        steps.push(SyncStep::CheckUpdate);
    }
    if config.remote.as_str().unicode_len() > 0 {
        steps.push(SyncStep::StorageUsage);
        steps.push(SyncStep::List);
    }
    assert(steps@ =~= sync_steps(*config));
    steps
}

} // verus!
