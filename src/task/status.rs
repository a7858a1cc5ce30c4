//! Status report: which directories it covers, and their disk usage in bytes.
use vstd::prelude::*;

use crate::task::TaskConfig;

verus! {

/// The directories of the status report, labelled, in report order.
pub fn run(config: &TaskConfig) -> (r: Vec<(&'static str, String)>)
    ensures
        r@.len() == 3,
        r@[0].0@ == seq!['i', 'n', 'b', 'o', 'x'] && r@[0].1@ == config.inbox_dir@,
        r@[1].0@ == seq!['r', 'e', 'p', 'o'] && r@[1].1@ == config.repo_dir@,
        r@[2].0@ == seq!['s', 'y', 'n', 'c'] && r@[2].1@ == config.sync_dir@,
{
    proof {
        reveal_strlit("inbox");
        reveal_strlit("repo");
        reveal_strlit("sync");
        assert("inbox"@ =~= seq!['i', 'n', 'b', 'o', 'x']);
        assert("repo"@ =~= seq!['r', 'e', 'p', 'o']);
        assert("sync"@ =~= seq!['s', 'y', 'n', 'c']);
    }
    let mut dirs: Vec<(&'static str, String)> = Vec::new();
    dirs.push(("inbox", config.inbox_dir.clone()));
    dirs.push(("repo", config.repo_dir.clone()));
    dirs.push(("sync", config.sync_dir.clone()));
    dirs
}

/// Capacity of a filesystem in bytes.
pub struct DiskUsage {
    pub total: u64,
    pub avail: u64,
}

/// Total and available bytes of a filesystem from its block counts and fragment size;
/// `None` where a product does not fit in `u64`.
pub fn report_disk_usage(blocks: u64, bavail: u64, frsize: u64) -> (r: Option<DiskUsage>)
    ensures
        match r {
            Some(u) => u.total == blocks * frsize && u.avail == bavail * frsize,
            None => blocks * frsize > u64::MAX || bavail * frsize > u64::MAX,
        },
{
    match (blocks.checked_mul(frsize), bavail.checked_mul(frsize)) {
        (Some(total), Some(avail)) => Some(DiskUsage { total, avail }),
        _ => None,
    }
}

} // verus!
