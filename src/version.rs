//! Version and build information lines.
use vstd::prelude::*;
use vstd::string::StringExecFns;

verus! {

/// `"debug"` for a debug build (`build_debug` is `"true"`), `"release"` otherwise.
pub open spec fn profile_of(build_debug: Seq<char>) -> Seq<char> {
    if build_debug == seq!['t', 'r', 'u', 'e'] {
        seq!['d', 'e', 'b', 'u', 'g']
    } else {
        seq!['r', 'e', 'l', 'e', 'a', 's', 'e']
    }
}

/// The build profile named by the build's debug flag.
pub fn build_profile(build_debug: &str) -> (r: &'static str)
    ensures
        r@ == profile_of(build_debug@),
{
    proof {
        reveal_strlit("true");
        reveal_strlit("debug");
        reveal_strlit("release");
        assert("true"@ =~= seq!['t', 'r', 'u', 'e']);
        assert("debug"@ =~= seq!['d', 'e', 'b', 'u', 'g']);
        assert("release"@ =~= seq!['r', 'e', 'l', 'e', 'a', 's', 'e']);
    }
    let is_debug = build_debug.unicode_len() == 4 && build_debug.get_char(0) == 't'
        && build_debug.get_char(1) == 'r' && build_debug.get_char(2) == 'u'
        && build_debug.get_char(3) == 'e';
    assert(is_debug == (build_debug@ == seq!['t', 'r', 'u', 'e'])) by {
        if build_debug@.len() == 4 && build_debug@ != seq!['t', 'r', 'u', 'e'] {
            assert(!(build_debug@ =~= seq!['t', 'r', 'u', 'e']));
        }
    }
    if is_debug {
        "debug"
    } else {
        "release"
    }
}

/// Where the build came from: package version, git branch, `git describe`, commit date and
/// the debug flag.
pub struct BuildInfo<'a> {
    pub pkg_version: &'a str,
    pub git_branch: &'a str,
    pub git_describe: &'a str,
    pub git_date: &'a str,
    pub build_debug: &'a str,
}

pub open spec fn version_lines(b: BuildInfo) -> Seq<Seq<char>> {
    seq![
        b.pkg_version@,
        b.git_branch@ + seq![' '] + b.git_describe@ + seq![' '] + b.git_date@,
        seq!['B', 'u', 'i', 'l', 'd', ':', ' '] + profile_of(b.build_debug@),
    ]
}

/// The version information, one item per line: the package version; branch, describe and
/// date; the build profile.
pub fn version_vec(b: &BuildInfo) -> (r: Vec<String>)
    ensures
        r@.len() == 3,
        r@.map_values(|s: String| s@) == version_lines(*b),
{
    proof {
        reveal_strlit(" ");
        reveal_strlit("Build: ");
        assert(" "@ =~= seq![' ']);
        assert("Build: "@ =~= seq!['B', 'u', 'i', 'l', 'd', ':', ' ']);
    }
    let mut lines: Vec<String> = Vec::new();
    lines.push(b.pkg_version.to_owned());
    let mut git = b.git_branch.to_owned();
    git.append(" ");
    git.append(b.git_describe);
    git.append(" ");
    git.append(b.git_date);
    lines.push(git);
    let mut build = "Build: ".to_owned();
    build.append(build_profile(b.build_debug));
    lines.push(build);
    assert(lines@.map_values(|s: String| s@) =~= version_lines(*b));
    lines
}

pub open spec fn joined_lines(lines: Seq<Seq<char>>) -> Seq<char>
    decreases lines.len(),
{
    if lines.len() == 0 {
        Seq::empty()
    } else if lines.len() == 1 {
        lines[0]
    } else {
        joined_lines(lines.drop_last()) + seq!['\n'] + lines.last()
    }
}

/// The version information as one text, its lines joined by newlines.
pub fn version(b: &BuildInfo) -> (r: String)
    ensures
        r@ == joined_lines(version_lines(*b)),
{
    let lines = version_vec(b);
    let ghost lv = lines@.map_values(|s: String| s@);
    let mut text = lines[0].clone();
    let mut i: usize = 1;
    assert(lv.take(1) =~= seq![lv[0]]);
    while i < lines.len()
        invariant
            1 <= i <= lines@.len(),
            lv == lines@.map_values(|s: String| s@),
            text@ == joined_lines(lv.take(i as int)),
        decreases lines@.len() - i,
    {
        assert(lv.take(i + 1).drop_last() =~= lv.take(i as int));
        assert(lv.take(i + 1).last() == lines@[i as int]@);
        let ghost prev = text@;
        proof {
            reveal_strlit("\n");
            assert("\n"@ =~= seq!['\n']);
        }
        text.append("\n");
        assert(text@ =~= prev + seq!['\n']);
        let line = lines[i].as_str();
        assert(line@ == lv[i as int]);
        text.append(line);
        assert(text@ =~= prev + seq!['\n'] + lv[i as int]);
        i = i + 1;
    }
    assert(lv.take(lines@.len() as int) =~= lv);
    text
}

} // verus!
