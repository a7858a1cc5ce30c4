//! Archive file names, size strings and the tag-partitioned repository view.
use vstd::prelude::*;

verus! {

/// Why a size string was refused.
#[derive(Debug, Clone, Copy, PartialEq, Eq, Structural)]
pub enum SizeError {
    /// The string is empty.
    Empty,
    /// A character is neither a digit nor a unit, or a unit has no digits before it.
    Syntax,
    /// The value does not fit in `u64`.
    Overflow,
}

pub open spec fn is_digit(c: char) -> bool {
    '0' <= c && c <= '9'
}

pub open spec fn digit_value(c: char) -> int {
    (c as int) - ('0' as int)
}

/// Multiplier of a binary unit letter (`k`, `m`, `g`, `t`, either case); 0 for any other char.
pub open spec fn unit_factor(c: char) -> int {
    if c == 'k' || c == 'K' {
        0x400
    } else if c == 'm' || c == 'M' {
        0x10_0000
    } else if c == 'g' || c == 'G' {
        0x4000_0000
    } else if c == 't' || c == 'T' {
        0x100_0000_0000
    } else {
        0
    }
}

/// Reads a size string left to right: whether it is well formed so far, the sum of the
/// groups closed by a unit letter, and the digits read since the last unit, if any.
pub open spec fn size_scan(s: Seq<char>) -> (bool, int, Option<int>)
    decreases s.len(),
{
    if s.len() == 0 {
        (true, 0, None)
    } else {
        let (ok, n, cur) = size_scan(s.drop_last());
        let c = s.last();
        if !ok {
            (false, n, cur)
        } else if is_digit(c) {
            (true, n, Some(cur.unwrap_or(0) * 10 + digit_value(c)))
        } else if unit_factor(c) != 0 && cur is Some {
            (true, n + cur->0 * unit_factor(c), None)
        } else {
            (false, n, cur)
        }
    }
}

/// The number a size string denotes: each `<digits><unit>` group scaled by its unit,
/// plus trailing digits taken as bytes.
pub open spec fn size_value(s: Seq<char>) -> int {
    size_scan(s).1 + size_scan(s).2.unwrap_or(0)
}

/// What `parse_size` returns for a string.
pub open spec fn size_of_text(s: Seq<char>) -> Result<u64, SizeError> {
    if s.len() == 0 {
        Err(SizeError::Empty)
    } else if !size_scan(s).0 {
        Err(SizeError::Syntax)
    } else if size_value(s) > u64::MAX {
        Err(SizeError::Overflow)
    } else {
        Ok(size_value(s) as u64)
    }
}

proof fn lemma_size_scan_nonneg(s: Seq<char>)
    ensures
        size_scan(s).1 >= 0,
        size_scan(s).2 matches Some(v) ==> v >= 0,
    decreases s.len(),
{
    if s.len() > 0 {
        lemma_size_scan_nonneg(s.drop_last());
    }
}

/// Once a prefix is malformed, every longer prefix is too; while well formed, the value
/// never decreases as characters are appended.
proof fn lemma_size_scan_grows(s: Seq<char>, i: int, j: int)
    requires
        0 <= i <= j <= s.len(),
    ensures
        !size_scan(s.take(i)).0 ==> !size_scan(s.take(j)).0,
        size_scan(s.take(j)).0 ==> size_value(s.take(i)) <= size_value(s.take(j)),
    decreases j - i,
{
    if i < j {
        lemma_size_scan_grows(s, i, j - 1);
        let p = s.take(j);
        assert(p.drop_last() =~= s.take(j - 1));
        lemma_size_scan_nonneg(p.drop_last());
        let c = p.last();
        if size_scan(p).0 && unit_factor(c) != 0 && !is_digit(c) {
            let v = size_scan(p.drop_last()).2->0;
            assert(v * unit_factor(c) >= v) by (nonlinear_arith)
                requires
                    v >= 0,
                    unit_factor(c) >= 1,
            ;
        }
    }
}

/// Parses a size such as `123`, `4k` or `1g512m`: `k`, `m`, `g` and `t` (either case) scale
/// the digits before them by 2^10, 2^20, 2^30 and 2^40; groups add up, and trailing digits
/// count as bytes.
pub fn parse_size(s: &str) -> (r: Result<u64, SizeError>)
    ensures
        r == size_of_text(s@),
{
    let len = s.unicode_len();
    if len == 0 {
        return Err(SizeError::Empty);
    }
    let mut n: u64 = 0;
    let mut cur: Option<u64> = None;
    let mut over = false;
    let mut pending = false;
    let mut i: usize = 0;
    assert(s@.take(0) =~= Seq::<char>::empty());
    while i < len
        invariant
            len == s@.len(),
            0 <= i <= len,
            size_scan(s@.take(i as int)).0,
            !over ==> n as int == size_scan(s@.take(i as int)).1,
            pending <==> size_scan(s@.take(i as int)).2 is Some,
            !over ==> match cur {
                Some(v) => size_scan(s@.take(i as int)).2 == Some(v as int),
                None => size_scan(s@.take(i as int)).2 is None,
            },
            over ==> size_value(s@.take(i as int)) > u64::MAX,
        decreases len - i,
    {
        let c = s.get_char(i);
        let ghost p = s@.take(i as int + 1);
        assert(p.drop_last() =~= s@.take(i as int));
        assert(p.last() == c);
        proof {
            lemma_size_scan_nonneg(s@.take(i as int));
            lemma_size_scan_grows(s@, i as int, i as int + 1);
        }
        if '0' <= c && c <= '9' {
            pending = true;
            if !over {
                let t = (c as u32 - '0' as u32) as u64;
                let base = match cur {
                    Some(v) => v,
                    None => 0,
                };
                match base.checked_mul(10) {
                    Some(m) => match m.checked_add(t) {
                        Some(v) => {
                            cur = Some(v);
                        },
                        None => {
                            over = true;
                        },
                    },
                    None => {
                        over = true;
                    },
                }
            }
        } else {
            let factor: u64 = if c == 'k' || c == 'K' {
                0x400
            } else if c == 'm' || c == 'M' {
                0x10_0000
            } else if c == 'g' || c == 'G' {
                0x4000_0000
            } else if c == 't' || c == 'T' {
                0x100_0000_0000
            } else {
                0
            };
            if factor == 0 {
                proof {
                    lemma_size_scan_grows(s@, i as int + 1, len as int);
                    assert(s@.take(len as int) =~= s@);
                }
                return Err(SizeError::Syntax);
            }
            if !pending {
                proof {
                    lemma_size_scan_grows(s@, i as int + 1, len as int);
                    assert(s@.take(len as int) =~= s@);
                }
                return Err(SizeError::Syntax);
            }
            pending = false;
            if !over {
                match cur {
                    Some(v) => {
                        match v.checked_mul(factor) {
                            Some(m) => match n.checked_add(m) {
                                Some(total) => {
                                    n = total;
                                    cur = None;
                                },
                                None => {
                                    over = true;
                                },
                            },
                            None => {
                                proof {
                                    lemma_size_scan_nonneg(s@.take(i as int));
                                }
                                over = true;
                            },
                        }
                    },
                    None => {
                        proof {
                            lemma_size_scan_grows(s@, i as int + 1, len as int);
                            assert(s@.take(len as int) =~= s@);
                        }
                        return Err(SizeError::Syntax);
                    },
                }
            }
        }
        i = i + 1;
    }
    assert(s@.take(len as int) =~= s@);
    if over {
        return Err(SizeError::Overflow);
    }
    let rest = match cur {
        Some(v) => v,
        None => 0,
    };
    match n.checked_add(rest) {
        Some(total) => Ok(total),
        None => Err(SizeError::Overflow),
    }
}

pub open spec fn is_separator(c: char) -> bool {
    c == '-' || c == '_'
}

pub open spec fn all_digits(t: Seq<char>) -> bool {
    forall|i: int| 0 <= i < t.len() ==> is_digit(#[trigger] t[i])
}

/// The recognised archive extensions: `zip`, `7z`, `tar.gz`, `tar.bz2`, `tar.xz`.
pub open spec fn is_archive_ext(e: Seq<char>) -> bool {
    e == seq!['z', 'i', 'p'] || e == seq!['7', 'z'] || e == seq!['t', 'a', 'r', '.', 'g', 'z']
        || e == seq!['t', 'a', 'r', '.', 'b', 'z', '2'] || e == seq!['t', 'a', 'r', '.', 'x', 'z']
}

/// The last component of a path: everything after its last `/`.
pub open spec fn base_name(p: Seq<char>) -> Seq<char>
    decreases p.len(),
{
    if p.len() == 0 || p.last() == '/' {
        Seq::empty()
    } else {
        base_name(p.drop_last()).push(p.last())
    }
}

/// A path without its trailing separators and `.` components: `a/b/./` reads as `a/b`.
pub open spec fn trim_tail(p: Seq<char>) -> Seq<char>
    decreases p.len(),
{
    if p.len() > 0 && p.last() == '/' {
        trim_tail(p.drop_last())
    } else if p.len() >= 2 && p.last() == '.' && p[p.len() - 2] == '/' {
        trim_tail(p.drop_last())
    } else {
        p
    }
}

/// The file name of a path, as `Path::file_name` reads it: the last component once trailing
/// separators and `.` components are dropped; none where that is `..` or `.`, or where the
/// path is a root or empty.
pub open spec fn file_name_of(p: Seq<char>) -> Option<Seq<char>> {
    let n = base_name(trim_tail(p));
    if n.len() == 0 || n == seq!['.'] || n == seq!['.', '.'] {
        None
    } else {
        Some(n)
    }
}

/// `k` is the position of the first `.` in `s`.
pub open spec fn is_first_dot(s: Seq<char>, k: int) -> bool {
    0 <= k < s.len() && s[k] == '.' && forall|j: int| 0 <= j < k ==> s[j] != '.'
}

/// `d` is where the maximal run of digits that ends `b` starts.
pub open spec fn is_digit_run_start(b: Seq<char>, d: int) -> bool {
    0 <= d <= b.len() && all_digits(b.skip(d)) && (d == 0 || !is_digit(b[d - 1]))
}

/// The tag and date of an archive file name `<tag>[-_]?<digits(>=8)>.<ext>`, split at the
/// first `.`, with a non-empty body and a recognised extension. The tag is the shortest
/// prefix that the grammar admits: the date is the whole trailing digit run, and a `-` or
/// `_` just before it is the separator.
pub open spec fn archive_parts(name: Seq<char>) -> Option<(Seq<char>, Seq<char>)> {
    if !exists|k: int| is_first_dot(name, k) {
        None
    } else {
        let k = choose|k: int| is_first_dot(name, k);
        let body = name.take(k);
        let ext = name.skip(k + 1);
        let d = choose|d: int| is_digit_run_start(body, d);
        if body.len() == 0 || !is_archive_ext(ext) || body.len() - d < 8 {
            None
        } else {
            let tag_end = if d > 0 && is_separator(body[d - 1]) {
                d - 1
            } else {
                d
            };
            Some((body.take(tag_end), body.skip(d)))
        }
    }
}

/// `t` can follow a tag: an optional `-` or `_`, then at least eight digits up to the end.
pub open spec fn is_date_tail(t: Seq<char>) -> bool {
    ||| t.len() >= 8 && all_digits(t)
    ||| t.len() >= 9 && is_separator(t[0]) && all_digits(t.skip(1))
}

/// The part of a file name before its first `.`.
pub open spec fn body_of(name: Seq<char>) -> Seq<char> {
    name.take(choose|k: int| is_first_dot(name, k))
}

proof fn lemma_digit_run_exists(b: Seq<char>)
    ensures
        exists|d: int| is_digit_run_start(b, d),
    decreases b.len(),
{
    if b.len() == 0 {
        assert(is_digit_run_start(b, 0));
    } else if is_digit(b.last()) {
        lemma_digit_run_exists(b.drop_last());
        let d = choose|d: int| is_digit_run_start(b.drop_last(), d);
        assert forall|i: int| 0 <= i < b.skip(d).len() implies is_digit(#[trigger] b.skip(d)[i]) by {
            if i < b.skip(d).len() - 1 {
                assert(b.skip(d)[i] == b.drop_last().skip(d)[i]);
            }
        }
        assert(is_digit_run_start(b, d));
    } else {
        assert(is_digit_run_start(b, b.len() as int));
    }
}

/// The tag is the shortest prefix of the body that a date tail can follow (the grammar's
/// prefix is non-greedy), and the date is that tail without its separator.
pub proof fn lemma_tag_is_shortest(name: Seq<char>)
    requires
        archive_parts(name) is Some,
    ensures
        ({
            let (tag, date) = archive_parts(name)->0;
            let body = body_of(name);
            let tail = body.skip(tag.len() as int);
            &&& tag.len() <= body.len()
            &&& body.take(tag.len() as int) == tag
            &&& is_date_tail(tail)
            &&& forall|j: int| 0 <= j < tag.len() ==> !is_date_tail(#[trigger] body.skip(j))
            &&& date == (if tail.len() > 0 && is_separator(tail[0]) {
                tail.skip(1)
            } else {
                tail
            })
        }),
{
    let k = choose|k: int| is_first_dot(name, k);
    let body = name.take(k);
    lemma_digit_run_exists(body);
    let d = choose|d: int| is_digit_run_start(body, d);
    let (tag, date) = archive_parts(name)->0;
    let e = tag.len() as int;
    let tail = body.skip(e);
    if e == d - 1 {
        assert(tail.skip(1) =~= body.skip(d));
    } else {
        assert(tail =~= body.skip(d));
    }
    assert forall|j: int| 0 <= j < e implies !is_date_tail(#[trigger] body.skip(j)) by {
        let t = body.skip(j);
        assert(t[d - 1 - j] == body[d - 1]);
        if j + 1 < d {
            assert(t.skip(1)[d - 2 - j] == body[d - 1]);
        }
    }
}

/// What `parse_file_name` returns for a path: the file name, its tag and its date.
pub open spec fn file_name_parts(path: Seq<char>) -> Option<(Seq<char>, Seq<char>, Seq<char>)> {
    match file_name_of(path) {
        Some(name) => match archive_parts(name) {
            Some((tag, date)) => Some((name, tag, date)),
            None => None,
        },
        None => None,
    }
}

pub open spec fn parts_view(r: Option<(String, String, String)>) -> Option<
    (Seq<char>, Seq<char>, Seq<char>),
> {
    match r {
        Some((n, t, d)) => Some((n@, t@, d@)),
        None => None,
    }
}

/// Whether two strings hold the same characters.
pub(crate) fn str_equals(a: &str, b: &str) -> (r: bool)
    ensures
        r == (a@ == b@),
{
    let n = a.unicode_len();
    if n != b.unicode_len() {
        return false;
    }
    let mut i: usize = 0;
    while i < n
        invariant
            n == a@.len() == b@.len(),
            0 <= i <= n,
            forall|j: int| 0 <= j < i ==> a@[j] == b@[j],
        decreases n - i,
    {
        if a.get_char(i) != b.get_char(i) {
            return false;
        }
        i = i + 1;
    }
    assert(a@ =~= b@);
    true
}

fn is_archive_extension(e: &str) -> (r: bool)
    ensures
        r == is_archive_ext(e@),
{
    proof {
        reveal_strlit("zip");
        reveal_strlit("7z");
        reveal_strlit("tar.gz");
        reveal_strlit("tar.bz2");
        reveal_strlit("tar.xz");
        assert("zip"@ =~= seq!['z', 'i', 'p']);
        assert("7z"@ =~= seq!['7', 'z']);
        assert("tar.gz"@ =~= seq!['t', 'a', 'r', '.', 'g', 'z']);
        assert("tar.bz2"@ =~= seq!['t', 'a', 'r', '.', 'b', 'z', '2']);
        assert("tar.xz"@ =~= seq!['t', 'a', 'r', '.', 'x', 'z']);
    }
    str_equals(e, "zip") || str_equals(e, "7z") || str_equals(e, "tar.gz") || str_equals(
        e,
        "tar.bz2",
    ) || str_equals(e, "tar.xz")
}

/// The last component of a path once trailing separators and `.` components are dropped.
fn last_component(path: &str) -> (name: &str)
    ensures
        name@ == base_name(trim_tail(path@)),
{
    let len = path.unicode_len();
    let ghost p = path@;
    // drop trailing separators and `.` components
    let mut end = len;
    assert(p.take(len as int) =~= p);
    while end > 0 && (path.get_char(end - 1) == '/' || (end >= 2 && path.get_char(end - 1) == '.'
        && path.get_char(end - 2) == '/'))
        invariant
            len == p.len(),
            p == path@,
            0 <= end <= len,
            trim_tail(p) == trim_tail(p.take(end as int)),
        decreases end,
    {
        assert(p.take(end as int).drop_last() =~= p.take(end - 1));
        end = end - 1;
    }
    let ghost q = p.take(end as int);
    assert(trim_tail(q) == q);
    // file name: after the last '/'
    let mut start = end;
    assert(q.take(end as int) =~= q);
    assert(q.subrange(end as int, end as int) =~= Seq::<char>::empty());
    while start > 0 && path.get_char(start - 1) != '/'
        invariant
            len == p.len(),
            p == path@,
            0 <= start <= end <= len,
            q == p.take(end as int),
            base_name(q) == base_name(q.take(start as int)) + q.subrange(start as int, end as int),
        decreases start,
    {
        let ghost r = q.take(start as int);
        assert(r.drop_last() =~= q.take(start - 1));
        assert(q.subrange(start - 1, end as int) =~= seq![r.last()] + q.subrange(
            start as int,
            end as int,
        ));
        start = start - 1;
    }
    assert(base_name(q.take(start as int)) =~= Seq::<char>::empty());
    let name = path.substring_char(start, end);
    assert(name@ =~= base_name(q));
    name
}

/// Gets `(file name, tag, date)` from a path whose file name follows
/// `<tag>[-_]?<digits(>=8)>.<ext>`, e.g. `abc-20240101.zip` gives `("abc-20240101.zip",
/// "abc", "20240101")`. Hidden files, other extensions and names without a date give `None`.
pub fn parse_file_name(path: &str) -> (r: Option<(String, String, String)>)
    ensures
        parts_view(r) == file_name_parts(path@),
{
    let ghost p = path@;
    let name = last_component(path);
    let ghost nm = name@;
    let nlen = name.unicode_len();
    // split at the first '.'
    let mut k: usize = 0;
    while k < nlen && name.get_char(k) != '.'
        invariant
            nlen == nm.len(),
            nm == name@,
            0 <= k <= nlen,
            forall|j: int| 0 <= j < k ==> nm[j] != '.',
        decreases nlen - k,
    {
        k = k + 1;
    }
    if k == nlen {
        assert(!exists|k: int| is_first_dot(nm, k));
        return None;
    }
    assert(is_first_dot(nm, k as int));
    assert forall|k2: int| is_first_dot(nm, k2) implies k2 == k by {
        if k2 < k {
            assert(nm[k2] != '.');
        }
        if k2 > k {
            assert(nm[k as int] != '.');
        }
    }
    let ghost body = nm.take(k as int);
    if k == 0 {
        return None;
    }
    assert(nm[0] != '.');
    assert(file_name_of(p) == Some(nm));
    let ext = name.substring_char(k + 1, nlen);
    assert(ext@ =~= nm.skip(k + 1));
    if !is_archive_extension(ext) {
        return None;
    }
    // the trailing digit run of the body
    let mut d = k;
    while d > 0 && '0' <= name.get_char(d - 1) && name.get_char(d - 1) <= '9'
        invariant
            nlen == nm.len(),
            nm == name@,
            0 <= d <= k < nlen,
            body == nm.take(k as int),
            all_digits(body.skip(d as int)),
        decreases d,
    {
        assert forall|i: int| 0 <= i < body.skip(d - 1).len() implies is_digit(
            #[trigger] body.skip(d - 1)[i],
        ) by {
            if i > 0 {
                assert(body.skip(d - 1)[i] == body.skip(d as int)[i - 1]);
            }
        }
        d = d - 1;
    }
    assert(is_digit_run_start(body, d as int));
    assert forall|d2: int| is_digit_run_start(body, d2) implies d2 == d by {
        if d2 < d {
            assert(body.skip(d2)[d - 1 - d2] == body[d - 1]);
        }
        if d2 > d {
            assert(body.skip(d as int)[d2 - 1 - d] == body[d2 - 1]);
        }
    }
    if k - d < 8 {
        return None;
    }
    let tag_end = if d > 0 && (name.get_char(d - 1) == '-' || name.get_char(d - 1) == '_') {
        d - 1
    } else {
        d
    };
    let tag = name.substring_char(0, tag_end).to_owned();
    let date = name.substring_char(d, k).to_owned();
    assert(tag@ =~= body.take(tag_end as int));
    assert(date@ =~= body.skip(d as int));
    Some((name.to_owned(), tag, date))
}

/// Lexical order of date tokens; for fixed-format numeric dates it is chronological order.
pub open spec fn date_le(a: Seq<char>, b: Seq<char>) -> bool
    decreases a.len(),
{
    if a.len() == 0 {
        true
    } else if b.len() == 0 {
        false
    } else if a[0] != b[0] {
        a[0] < b[0]
    } else {
        date_le(a.drop_first(), b.drop_first())
    }
}

pub proof fn lemma_date_le_total(a: Seq<char>, b: Seq<char>)
    ensures
        date_le(a, b) || date_le(b, a),
    decreases a.len(),
{
    if a.len() > 0 && b.len() > 0 && a[0] == b[0] {
        lemma_date_le_total(a.drop_first(), b.drop_first());
    }
}

pub proof fn lemma_date_le_transitive(a: Seq<char>, b: Seq<char>, c: Seq<char>)
    requires
        date_le(a, b),
        date_le(b, c),
    ensures
        date_le(a, c),
    decreases a.len(),
{
    if a.len() > 0 && b.len() > 0 && c.len() > 0 && a[0] == b[0] && b[0] == c[0] {
        lemma_date_le_transitive(a.drop_first(), b.drop_first(), c.drop_first());
    }
}

fn date_le_exec(a: &str, b: &str) -> (r: bool)
    ensures
        r == date_le(a@, b@),
{
    let na = a.unicode_len();
    let nb = b.unicode_len();
    let mut i: usize = 0;
    assert(a@.skip(0) =~= a@);
    assert(b@.skip(0) =~= b@);
    while i < na && i < nb
        invariant
            na == a@.len(),
            nb == b@.len(),
            0 <= i <= na,
            i <= nb,
            date_le(a@, b@) == date_le(a@.skip(i as int), b@.skip(i as int)),
        decreases na - i,
    {
        let ca = a.get_char(i);
        let cb = b.get_char(i);
        assert(a@.skip(i as int)[0] == ca);
        assert(b@.skip(i as int)[0] == cb);
        if ca != cb {
            return ca < cb;
        }
        assert(a@.skip(i as int).drop_first() =~= a@.skip(i + 1));
        assert(b@.skip(i as int).drop_first() =~= b@.skip(i + 1));
        i = i + 1;
    }
    i == na
}

/// One archive of a repository bucket.
pub struct Entry {
    /// Date token; a bucket is ordered by it.
    pub date: String,
    pub path: String,
    pub size: u64,
}

/// A file found in a tag directory, as the directory walk saw it.
pub struct FileInfo {
    pub path: String,
    /// It is a regular file.
    pub is_file: bool,
    /// Its size, where it could be read.
    pub size: Option<u64>,
}

/// An entry of the repository root, as the directory walk saw it.
pub struct SubdirListing {
    /// Its name, where it is valid UTF-8.
    pub name: Option<String>,
    /// It is a directory.
    pub is_dir: bool,
    /// The files in it, where it could be read.
    pub files: Option<Vec<FileInfo>>,
}

/// A repository: for each tag directory under `root_dir`, its archives oldest first.
pub struct Repository {
    pub root_dir: String,
    /// (tag, entries) for each tag directory.
    pub data: Vec<(String, Vec<Entry>)>,
}

pub open spec fn entry_view(e: Entry) -> (Seq<char>, Seq<char>, u64) {
    (e.date@, e.path@, e.size)
}

pub open spec fn entries_view(v: Seq<Entry>) -> Seq<(Seq<char>, Seq<char>, u64)> {
    v.map_values(|e: Entry| entry_view(e))
}

/// The bucket entry a file gives, if any: a regular file of known size whose name parses and
/// whose tag is the directory's name.
pub open spec fn file_entry(dirname: Seq<char>, f: FileInfo) -> Option<
    (Seq<char>, Seq<char>, u64),
> {
    match file_name_parts(f.path@) {
        Some((_name, tag, date)) => if f.is_file && f.size is Some && tag == dirname {
            Some((date, f.path@, f.size->0))
        } else {
            None
        },
        None => None,
    }
}

/// The entries that the files of a tag directory give, in listing order.
pub open spec fn bucket_selection(dirname: Seq<char>, files: Seq<FileInfo>) -> Seq<
    (Seq<char>, Seq<char>, u64),
>
    decreases files.len(),
{
    if files.len() == 0 {
        Seq::empty()
    } else {
        let rest = bucket_selection(dirname, files.drop_last());
        match file_entry(dirname, files.last()) {
            Some(e) => rest.push(e),
            None => rest,
        }
    }
}

/// Entries in non-decreasing date order.
pub open spec fn sorted_by_date(v: Seq<(Seq<char>, Seq<char>, u64)>) -> bool {
    forall|i: int, j: int| 0 <= i < j < v.len() ==> date_le(#[trigger] v[i].0, #[trigger] v[j].0)
}

/// Where a stable insertion puts `x` into date-ordered `s`: after every entry whose date is
/// not later than its own.
pub open spec fn insert_pos(s: Seq<(Seq<char>, Seq<char>, u64)>, x: (Seq<char>, Seq<char>, u64)) -> int
    decreases s.len(),
{
    if s.len() == 0 {
        0
    } else if date_le(s.last().0, x.0) {
        s.len() as int
    } else {
        insert_pos(s.drop_last(), x)
    }
}

/// `s` sorted by date; entries with equal dates keep their order in `s`.
pub open spec fn stable_sort_by_date(s: Seq<(Seq<char>, Seq<char>, u64)>) -> Seq<
    (Seq<char>, Seq<char>, u64),
>
    decreases s.len(),
{
    if s.len() == 0 {
        s
    } else {
        let r = stable_sort_by_date(s.drop_last());
        r.insert(insert_pos(r, s.last()), s.last())
    }
}

/// A bucket holds exactly the selected entries of its directory, ordered by date, with equal
/// dates in listing order.
pub open spec fn is_bucket_of(
    entries: Seq<(Seq<char>, Seq<char>, u64)>,
    dirname: Seq<char>,
    files: Seq<FileInfo>,
) -> bool {
    &&& entries == stable_sort_by_date(bucket_selection(dirname, files))
    &&& sorted_by_date(entries)
    &&& entries.to_multiset() == bucket_selection(dirname, files).to_multiset()
}

impl Repository {
    /// Tags are distinct, and every bucket is in date order.
    pub open spec fn well_formed(&self) -> bool {
        &&& forall|i: int, j: int|
            0 <= i < j < self.data@.len() ==> (#[trigger] self.data@[i]).0@ != (
            #[trigger] self.data@[j]).0@
        &&& forall|i: int|
            0 <= i < self.data@.len() ==> sorted_by_date(entries_view(#[trigger] self.data@[i].1@))
    }

    /// Builds the repository view of `root_dir` from a listing of its entries: each readable
    /// directory with a valid name becomes a bucket tagged with that name, in listing order.
    pub fn init(root_dir: String, listing: Vec<SubdirListing>) -> (r: Repository)
        ensures
            r.well_formed(),
            r.root_dir@ == root_dir@,
            r.data@.len() == tag_dirs(listing@).len(),
            forall|i: int|
                0 <= i < r.data@.len() ==> {
                    let d = #[trigger] tag_dirs(listing@)[i];
                    &&& r.data@[i].0@ == d.name->0@
                    &&& is_bucket_of(entries_view(r.data@[i].1@), d.name->0@, d.files->0@)
                },
    {
        let r = Self::scan_root(root_dir, listing);
        assert forall|i: int| 0 <= i < r.data@.len() implies sorted_by_date(
            entries_view(#[trigger] r.data@[i].1@),
        ) by {
            assert(is_bucket_of(
                entries_view(r.data@[i].1@),
                tag_dirs(listing@)[i].name->0@,
                tag_dirs(listing@)[i].files->0@,
            ));
        }
        r
    }

    fn scan_root(root_dir: String, listing: Vec<SubdirListing>) -> (r: Repository)
        ensures
            forall|i: int, j: int|
                0 <= i < j < r.data@.len() ==> (#[trigger] r.data@[i]).0@ != (
                #[trigger] r.data@[j]).0@,
            r.root_dir@ == root_dir@,
            r.data@.len() == tag_dirs(listing@).len(),
            forall|i: int|
                0 <= i < r.data@.len() ==> {
                    let d = #[trigger] tag_dirs(listing@)[i];
                    &&& r.data@[i].0@ == d.name->0@
                    &&& is_bucket_of(entries_view(r.data@[i].1@), d.name->0@, d.files->0@)
                },
    {
        let mut data: Vec<(String, Vec<Entry>)> = Vec::new();
        let mut i: usize = 0;
        while i < listing.len()
            invariant
                0 <= i <= listing@.len(),
                data@.len() == tag_dirs(listing@.take(i as int)).len(),
                forall|j: int, l: int|
                    0 <= j < l < data@.len() ==> (#[trigger] data@[j]).0@ != (
                    #[trigger] data@[l]).0@,
                forall|j: int|
                    0 <= j < data@.len() ==> {
                        let d = #[trigger] tag_dirs(listing@.take(i as int))[j];
                        &&& data@[j].0@ == d.name->0@
                        &&& is_bucket_of(entries_view(data@[j].1@), d.name->0@, d.files->0@)
                    },
            decreases listing@.len() - i,
        {
            let sub = &listing[i];
            assert(listing@.take(i + 1).drop_last() =~= listing@.take(i as int));
            if sub.is_dir {
                match (&sub.name, &sub.files) {
                    (Some(name), Some(files)) => {
                        let ghost rest = tag_dirs(listing@.take(i as int));
                        if !has_tag(&data, name.as_str()) {
                            proof {
                                assert forall|j: int| 0 <= j < rest.len() implies (
                                #[trigger] rest[j]).name->0@ != name@ by {
                                    assert(data@[j].0@ == rest[j].name->0@);
                                }
                            }
                            let list = Self::scan_sub(files, name.as_str());
                            data.push((name.clone(), list));
                        } else {
                            proof {
                                let j = choose|j: int| 0 <= j < data@.len() && data@[j].0@ == name@;
                                assert(rest[j].name->0@ == name@);
                            }
                        }
                    },
                    _ => {},
                }
            }
            i = i + 1;
        }
        assert(listing@.take(listing@.len() as int) =~= listing@);
        Repository { root_dir, data }
    }

    /// The entries of one tag directory, sorted by date; entries with equal dates keep
    /// their listing order.
    fn scan_sub(files: &Vec<FileInfo>, dirname: &str) -> (r: Vec<Entry>)
        ensures
            is_bucket_of(entries_view(r@), dirname@, files@),
    {
        broadcast use vstd::seq_lib::group_to_multiset_ensures;

        let mut result: Vec<Entry> = Vec::new();
        let mut i: usize = 0;
        assert(entries_view(result@) =~= Seq::empty());
        assert(bucket_selection(dirname@, files@.take(0)) =~= Seq::empty());
        assert(stable_sort_by_date(Seq::empty()) =~= Seq::<(Seq<char>, Seq<char>, u64)>::empty());
        while i < files.len()
            invariant
                0 <= i <= files@.len(),
                is_bucket_of(entries_view(result@), dirname@, files@.take(i as int)),
            decreases files@.len() - i,
        {
            let f = &files[i];
            let ghost before = entries_view(result@);
            assert(files@.take(i + 1).drop_last() =~= files@.take(i as int));
            assert(files@.take(i + 1).last() == *f);
            let ghost sel = bucket_selection(dirname@, files@.take(i + 1));
            assert(file_entry(dirname@, *f) is None ==> sel == bucket_selection(
                dirname@,
                files@.take(i as int),
            ));
            assert(file_entry(dirname@, *f) is Some ==> sel == bucket_selection(
                dirname@,
                files@.take(i as int),
            ).push(file_entry(dirname@, *f)->0));
            let mut added = false;
            if f.is_file {
                match f.size {
                    Some(size) => match parse_file_name(f.path.as_str()) {
                        Some((_name, tag, date)) => {
                            if str_equals(tag.as_str(), dirname) {
                                let e = Entry { date, path: f.path.clone(), size };
                                assert(entry_view(e) == file_entry(dirname@, *f)->0);
                                insert_by_date(&mut result, e);
                                added = true;
                            }
                        },
                        None => {},
                    },
                    None => {},
                }
            }
            proof {
                if !added {
                    assert(file_entry(dirname@, *f) is None);
                    assert(entries_view(result@) == before);
                } else {
                    assert(file_entry(dirname@, *f) is Some);
                    let prev = bucket_selection(dirname@, files@.take(i as int));
                    assert(sel.drop_last() =~= prev);
                    assert(sel.last() == file_entry(dirname@, *f)->0);
                    vstd::seq_lib::to_multiset_build(
                        bucket_selection(dirname@, files@.take(i as int)),
                        file_entry(dirname@, *f)->0,
                    );
                    assert(sel.to_multiset() == bucket_selection(dirname@, files@.take(i as int)).to_multiset().insert(file_entry(dirname@, *f)->0));
                }
            }
            i = i + 1;
        }
        assert(files@.take(files@.len() as int) =~= files@);
        result
    }
}

/// The directories of a listing that become buckets: valid name, directory, readable, and
/// the first of that name.
pub open spec fn tag_dirs(listing: Seq<SubdirListing>) -> Seq<SubdirListing>
    decreases listing.len(),
{
    if listing.len() == 0 {
        Seq::empty()
    } else {
        let rest = tag_dirs(listing.drop_last());
        let d = listing.last();
        if d.is_dir && d.name is Some && d.files is Some && !(exists|j: int|
            0 <= j < rest.len() && (#[trigger] rest[j]).name->0@ == d.name->0@) {
            rest.push(d)
        } else {
            rest
        }
    }
}

/// Whether a bucket with this tag is already there.
fn has_tag(data: &Vec<(String, Vec<Entry>)>, name: &str) -> (r: bool)
    ensures
        r == exists|j: int| 0 <= j < data@.len() && data@[j].0@ == name@,
{
    let mut j: usize = 0;
    while j < data.len()
        invariant
            0 <= j <= data@.len(),
            forall|l: int| 0 <= l < j ==> data@[l].0@ != name@,
        decreases data@.len() - j,
    {
        if str_equals(data[j].0.as_str(), name) {
            return true;
        }
        j = j + 1;
    }
    false
}

/// Inserts after every entry whose date is not later, keeping the order sorted and stable.
fn insert_by_date(v: &mut Vec<Entry>, e: Entry)
    requires
        sorted_by_date(entries_view(old(v)@)),
    ensures
        entries_view(final(v)@) == entries_view(old(v)@).insert(
            insert_pos(entries_view(old(v)@), entry_view(e)),
            entry_view(e),
        ),
        sorted_by_date(entries_view(final(v)@)),
        entries_view(final(v)@).to_multiset() == entries_view(old(v)@).to_multiset().insert(
            entry_view(e),
        ),
{
    let ghost ov = entries_view(v@);
    let mut p = v.len();
    assert(ov.take(p as int) =~= ov);
    while p > 0 && !date_le_exec(v[p - 1].date.as_str(), e.date.as_str())
        invariant
            0 <= p <= v@.len(),
            entries_view(v@) == ov,
            forall|j: int| p <= j < v@.len() ==> !date_le(#[trigger] ov[j].0, e.date@),
            insert_pos(ov, entry_view(e)) == insert_pos(ov.take(p as int), entry_view(e)),
        decreases p,
    {
        assert(ov.take(p as int).drop_last() =~= ov.take(p - 1));
        p = p - 1;
    }
    proof {
        assert forall|j: int| 0 <= j < p implies date_le(#[trigger] ov[j].0, e.date@) by {
            if j < p - 1 {
                lemma_date_le_transitive(ov[j].0, ov[p - 1].0, e.date@);
            }
        }
        assert forall|j: int| p <= j < ov.len() implies date_le(e.date@, #[trigger] ov[j].0) by {
            lemma_date_le_total(ov[j].0, e.date@);
        }
    }
    let ghost ev = entry_view(e);
    v.insert(p, e);
    proof {
        let nv = entries_view(v@);
        assert(nv =~= ov.insert(p as int, ev));
        ov.to_multiset_ensures();
        vstd::seq_lib::to_multiset_insert(ov, p as int, ev);
        assert forall|i: int, j: int| 0 <= i < j < nv.len() implies date_le(
            #[trigger] nv[i].0,
            #[trigger] nv[j].0,
        ) by {
            if i < p && j > p {
                lemma_date_le_transitive(nv[i].0, ev.0, nv[j].0);
            }
        }
    }
}

} // verus!
