//! Retention: which of the oldest archives of each tag are removed.
use vstd::prelude::*;

use crate::fssys::{entries_view, Entry, Repository};
use crate::task::TaskConfig;

verus! {

/// An entry as the retention rules see it: (date, path, size).
pub type EntryView = (Seq<char>, Seq<char>, u64);

/// Total size of a run of entries.
pub open spec fn total_size(v: Seq<EntryView>) -> int
    decreases v.len(),
{
    if v.len() == 0 {
        0
    } else {
        v[0].2 + total_size(v.drop_first())
    }
}

/// Count rule: with a limit `k != 0`, everything but the `k` newest goes.
pub open spec fn count_cut(len: int, keep_count: int) -> int {
    if keep_count != 0 && len > keep_count {
        len - keep_count
    } else {
        0
    }
}

/// Removes entries from the oldest end, starting at `c`, until the rest fits in `keep_size`.
pub open spec fn size_cut_from(v: Seq<EntryView>, c: int, keep_size: int) -> int
    decreases v.len() - c,
{
    if c >= v.len() || total_size(v.skip(c)) <= keep_size {
        c
    } else {
        size_cut_from(v, c + 1, keep_size)
    }
}

/// Size rule: with a limit `s != 0`, the fewest oldest entries whose removal leaves at most
/// `s` bytes.
pub open spec fn size_cut(v: Seq<EntryView>, keep_size: int) -> int {
    if keep_size != 0 {
        size_cut_from(v, 0, keep_size)
    } else {
        0
    }
}

/// How many of the oldest entries of a date-ordered bucket are removed: the larger of
/// what the count rule and the size rule ask for.
pub open spec fn evict_count(v: Seq<EntryView>, keep_count: int, keep_size: int) -> int {
    let a = count_cut(v.len() as int, keep_count);
    let b = size_cut(v, keep_size);
    if a >= b {
        a
    } else {
        b
    }
}

/// What cleanup decides for one archive.
pub struct Decision {
    pub path: String,
    /// Removed (true) or kept (false).
    pub delete: bool,
}

pub open spec fn decision_view(d: Decision) -> (Seq<char>, bool) {
    (d.path@, d.delete)
}

pub open spec fn decisions_view(v: Seq<Decision>) -> Seq<(Seq<char>, bool)> {
    v.map_values(|d: Decision| decision_view(d))
}

/// The decisions for a bucket: the `n` oldest are removed, the rest kept, in bucket order.
pub open spec fn bucket_plan(v: Seq<EntryView>, n: int) -> Seq<(Seq<char>, bool)> {
    Seq::new(v.len(), |i: int| (v[i].1, i < n))
}

proof fn lemma_total_size_bounds(v: Seq<EntryView>)
    ensures
        0 <= total_size(v) <= v.len() * u64::MAX,
    decreases v.len(),
{
    if v.len() > 0 {
        lemma_total_size_bounds(v.drop_first());
    }
}

proof fn lemma_size_cut_from_bounds(v: Seq<EntryView>, c: int, keep_size: int)
    requires
        0 <= c <= v.len(),
    ensures
        c <= size_cut_from(v, c, keep_size) <= v.len(),
        total_size(v.skip(size_cut_from(v, c, keep_size))) <= keep_size || keep_size < 0,
    decreases v.len() - c,
{
    if c < v.len() && total_size(v.skip(c)) > keep_size {
        lemma_size_cut_from_bounds(v, c + 1, keep_size);
    } else if c == v.len() {
        assert(v.skip(c).len() == 0);
    }
}

/// Number of oldest entries of a bucket to remove under the count and size limits.
fn delete_count(list: &Vec<Entry>, keep_count: u32, keep_size: u64) -> (r: usize)
    ensures
        r == evict_count(entries_view(list@), keep_count as int, keep_size as int),
        r <= list@.len(),
{
    let ghost v = entries_view(list@);
    let len = list.len();
    let mut count_candidate: usize = 0;
    if keep_count != 0 {
        let keep = keep_count as usize;
        if keep < len {
            count_candidate = len - keep;
        }
    }
    let mut size_candidate: usize = 0;
    if keep_size != 0 {
        // total size, summed from the newest end
        let mut total: u128 = 0;
        let mut j: usize = len;
        assert(v.skip(len as int) =~= Seq::<EntryView>::empty());
        while j > 0
            invariant
                len == list@.len() == v.len(),
                v == entries_view(list@),
                0 <= j <= len,
                total as int == total_size(v.skip(j as int)),
                total <= (len - j) * (u64::MAX as int),
            decreases j,
        {
            assert(v.skip(j - 1).drop_first() =~= v.skip(j as int));
            let s = list[j - 1].size;
            assert(total + s <= (len - j + 1) * (u64::MAX as int)) by (nonlinear_arith)
                requires
                    total <= (len - j) * (u64::MAX as int),
                    s <= u64::MAX,
            ;
            assert((len - j + 1) * (u64::MAX as int) <= 0x1_0000_0000_0000_0000 * (u64::MAX as int))
                by (nonlinear_arith)
                requires
                    len - j + 1 <= 0x1_0000_0000_0000_0000,
            ;
            total = total + s as u128;
            j = j - 1;
        }
        assert(v.skip(0) =~= v);
        let mut count: usize = 0;
        while count < len && total > keep_size as u128
            invariant
                len == list@.len() == v.len(),
                v == entries_view(list@),
                0 <= count <= len,
                total as int == total_size(v.skip(count as int)),
                size_cut_from(v, 0, keep_size as int) == size_cut_from(v, count as int, keep_size as int),
            decreases len - count,
        {
            assert(v.skip(count as int).drop_first() =~= v.skip(count + 1));
            proof {
                lemma_total_size_bounds(v.skip(count + 1));
            }
            total = total - list[count].size as u128;
            count = count + 1;
        }
        size_candidate = count;
    }
    proof {
        lemma_size_cut_from_bounds(v, 0, keep_size as int);
    }
    if count_candidate >= size_candidate {
        count_candidate
    } else {
        size_candidate
    }
}

/// Decides, for one tag's date-ordered entries, which are removed and which kept.
pub fn clean_one(config: &TaskConfig, list: &Vec<Entry>) -> (r: Vec<Decision>)
    ensures
        decisions_view(r@) == bucket_plan(
            entries_view(list@),
            evict_count(entries_view(list@), config.keep_count as int, config.keep_size as int),
        ),
{
    let n = delete_count(list, config.keep_count, config.keep_size);
    let ghost v = entries_view(list@);
    let mut result: Vec<Decision> = Vec::new();
    let mut i: usize = 0;
    while i < list.len()
        invariant
            0 <= i <= list@.len(),
            v == entries_view(list@),
            decisions_view(result@) =~= bucket_plan(v, n as int).take(i as int),
        decreases list@.len() - i,
    {
        let ghost before = result@;
        let d = Decision { path: list[i].path.clone(), delete: i < n };
        result.push(d);
        assert(result@ =~= before.push(d));
        assert(decisions_view(result@) =~= decisions_view(before).push(decision_view(d)));
        assert(v[i as int].1 == list@[i as int].path@);
        assert(bucket_plan(v, n as int).take(i + 1) =~= bucket_plan(v, n as int).take(i as int).push(
            (v[i as int].1, i < n),
        ));
        i = i + 1;
    }
    result
}

/// Retention cleanup of a scanned repository: the decisions for each tag, in the order of
/// its buckets. Nothing here depends on `dry_run`; it only says whether they are carried out.
pub fn run(config: &TaskConfig, repo: &Repository) -> (r: Vec<Vec<Decision>>)
    ensures
        r@.len() == repo.data@.len(),
        forall|i: int|
            0 <= i < r@.len() ==> decisions_view(#[trigger] r@[i]@) == bucket_plan(
                entries_view(repo.data@[i].1@),
                evict_count(
                    entries_view(repo.data@[i].1@),
                    config.keep_count as int,
                    config.keep_size as int,
                ),
            ),
{
    let mut result: Vec<Vec<Decision>> = Vec::new();
    let mut i: usize = 0;
    while i < repo.data.len()
        invariant
            0 <= i <= repo.data@.len(),
            result@.len() == i,
            forall|j: int|
                0 <= j < i ==> decisions_view(#[trigger] result@[j]@) == bucket_plan(
                    entries_view(repo.data@[j].1@),
                    evict_count(
                        entries_view(repo.data@[j].1@),
                        config.keep_count as int,
                        config.keep_size as int,
                    ),
                ),
        decreases repo.data@.len() - i,
    {
        result.push(clean_one(config, &repo.data[i].1));
        i = i + 1;
    }
    result
}

/// The paths that cleanup removes from disk, bucket by bucket: none under `dry_run`.
pub open spec fn removal_paths(plan: Seq<Seq<(Seq<char>, bool)>>, dry_run: bool) -> Seq<Seq<char>>
    decreases plan.len(),
{
    if dry_run || plan.len() == 0 {
        Seq::empty()
    } else {
        removal_paths(plan.drop_last(), dry_run) + deleted_paths(plan.last())
    }
}

/// The paths of the removed entries of a bucket plan, in order.
pub open spec fn deleted_paths(dv: Seq<(Seq<char>, bool)>) -> Seq<Seq<char>>
    decreases dv.len(),
{
    if dv.len() == 0 {
        Seq::empty()
    } else if dv.last().1 {
        deleted_paths(dv.drop_last()).push(dv.last().0)
    } else {
        deleted_paths(dv.drop_last())
    }
}

pub open spec fn plan_view(plan: Seq<Vec<Decision>>) -> Seq<Seq<(Seq<char>, bool)>> {
    plan.map_values(|b: Vec<Decision>| decisions_view(b@))
}

/// The files to remove for a cleanup plan, in plan order; under `dry_run` there are none, so
/// the filesystem is left as it is while the decisions stay the same.
pub fn removals(plan: &Vec<Vec<Decision>>, dry_run: bool) -> (r: Vec<String>)
    ensures
        r@.map_values(|p: String| p@) == removal_paths(plan_view(plan@), dry_run),
{
    let mut result: Vec<String> = Vec::new();
    if dry_run {
        assert(result@.map_values(|p: String| p@) =~= Seq::<Seq<char>>::empty());
        return result;
    }
    let mut i: usize = 0;
    assert(plan_view(plan@.take(0)) =~= Seq::empty());
    while i < plan.len()
        invariant
            !dry_run,
            0 <= i <= plan@.len(),
            result@.map_values(|p: String| p@) == removal_paths(plan_view(plan@.take(i as int)), dry_run),
        decreases plan@.len() - i,
    {
        let bucket = &plan[i];
        let ghost start = result@.map_values(|p: String| p@);
        let ghost dv = decisions_view(bucket@);
        let mut j: usize = 0;
        assert(start + deleted_paths(dv.take(0)) =~= start);
        while j < bucket.len()
            invariant
                0 <= j <= bucket@.len(),
                dv == decisions_view(bucket@),
                result@.map_values(|p: String| p@) =~= start + deleted_paths(dv.take(j as int)),
            decreases bucket@.len() - j,
        {
            let ghost before = result@;
            assert(dv.take(j + 1).drop_last() =~= dv.take(j as int));
            assert(dv.take(j + 1).last() == dv[j as int]);
            if bucket[j].delete {
                result.push(bucket[j].path.clone());
                assert(result@ =~= before.push(bucket@[j as int].path));
                assert(result@.map_values(|p: String| p@) =~= before.map_values(|p: String| p@).push(
                    dv[j as int].0,
                ));
            }
            j = j + 1;
        }
        assert(dv.take(bucket@.len() as int) =~= dv);
        assert(plan_view(plan@.take(i + 1)).drop_last() =~= plan_view(plan@.take(i as int)));
        assert(plan_view(plan@.take(i + 1)).last() == dv);
        i = i + 1;
    }
    assert(plan@.take(plan@.len() as int) =~= plan@);
    result
}

proof fn lemma_total_size_skip_mono(v: Seq<EntryView>, a: int, b: int)
    requires
        0 <= a <= b <= v.len(),
    ensures
        total_size(v.skip(b)) <= total_size(v.skip(a)),
    decreases b - a,
{
    if a < b {
        lemma_total_size_skip_mono(v, a + 1, b);
        assert(v.skip(a).drop_first() =~= v.skip(a + 1));
    }
}

proof fn lemma_evict_count_bounds(v: Seq<EntryView>, keep_count: int, keep_size: int)
    requires
        keep_count >= 0,
        keep_size >= 0,
    ensures
        count_cut(v.len() as int, keep_count) <= evict_count(v, keep_count, keep_size) <= v.len(),
        size_cut(v, keep_size) <= evict_count(v, keep_count, keep_size),
        keep_size != 0 ==> total_size(v.skip(evict_count(v, keep_count, keep_size))) <= keep_size,
{
    lemma_size_cut_from_bounds(v, 0, keep_size);
    if keep_size != 0 {
        lemma_total_size_skip_mono(v, size_cut(v, keep_size), evict_count(v, keep_count, keep_size));
    }
}

/// Cleanup is idempotent: on the entries that a run keeps, a second run with the same limits
/// removes nothing.
pub proof fn lemma_cleanup_idempotent(v: Seq<EntryView>, keep_count: u32, keep_size: u64)
    ensures
        evict_count(
            v.skip(evict_count(v, keep_count as int, keep_size as int)),
            keep_count as int,
            keep_size as int,
        ) == 0,
{
    let d = evict_count(v, keep_count as int, keep_size as int);
    lemma_evict_count_bounds(v, keep_count as int, keep_size as int);
    let w = v.skip(d);
    assert(w.skip(0) =~= w);
}

/// With a count limit `k` below the number of entries and no size limit, cleanup removes
/// exactly the `len - k` oldest entries and keeps the `k` newest.
pub proof fn lemma_keep_count_keeps_newest(v: Seq<EntryView>, keep_count: u32)
    requires
        0 < keep_count < v.len(),
    ensures
        evict_count(v, keep_count as int, 0) == v.len() - keep_count,
        forall|i: int|
            0 <= i < v.len() ==> #[trigger] bucket_plan(v, evict_count(v, keep_count as int, 0))[i]
                == (v[i].1, i < v.len() - keep_count),
{
}

proof fn lemma_total_size_uniform(v: Seq<EntryView>, s: int)
    requires
        forall|i: int| 0 <= i < v.len() ==> (#[trigger] v[i]).2 == s,
    ensures
        total_size(v) == v.len() * s,
    decreases v.len(),
{
    if v.len() > 0 {
        lemma_total_size_uniform(v.drop_first(), s);
        assert(v.len() * s == s + (v.len() - 1) * s) by (nonlinear_arith);
    }
}

proof fn lemma_uniform_size_cut(v: Seq<EntryView>, s: int, k: int, c: int)
    requires
        forall|i: int| 0 <= i < v.len() ==> (#[trigger] v[i]).2 == s,
        s >= 1,
        0 <= c <= v.len() - k,
        0 <= k,
    ensures
        size_cut_from(v, c, s * (k + 1) - 1) == v.len() - k,
    decreases v.len() - k - c,
{
    let w = v.skip(c);
    assert forall|i: int| 0 <= i < w.len() implies (#[trigger] w[i]).2 == s by {
        assert(w[i] == v[c + i]);
    }
    lemma_total_size_uniform(w, s);
    let n = v.len() - c;
    if c < v.len() - k {
        assert(n * s > s * (k + 1) - 1) by (nonlinear_arith)
            requires
                n >= k + 1,
                s >= 1,
        ;
        lemma_uniform_size_cut(v, s, k, c + 1);
    } else {
        assert(n * s <= s * (k + 1) - 1) by (nonlinear_arith)
            requires
                n == k,
                s >= 1,
        ;
    }
}

/// Size retention on archives of one size `s`: with `keep_size = s * (k + 1) - 1` and no count
/// limit, cleanup removes exactly the `len - k` oldest entries and keeps the `k` newest.
pub proof fn lemma_equal_sizes_keep_newest(v: Seq<EntryView>, s: u64, k: nat)
    requires
        forall|i: int| 0 <= i < v.len() ==> (#[trigger] v[i]).2 == s,
        s >= 1,
        k < v.len(),
        0 < s * (k + 1) - 1 <= u64::MAX,
    ensures
        evict_count(v, 0, s * (k + 1) - 1) == v.len() - k,
        forall|i: int|
            0 <= i < v.len() ==> #[trigger] bucket_plan(v, evict_count(v, 0, s * (k + 1) - 1))[i]
                == (v[i].1, i < v.len() - k),
{
    lemma_uniform_size_cut(v, s as int, k as int, 0);
}

} // verus!
