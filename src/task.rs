//! The pipeline: configuration and the order of its stages.
use vstd::prelude::*;

pub mod inbox;
pub mod repo;
pub mod status;
pub mod sync;
pub mod watch;

use crate::task::inbox::{first_step_of, lemma_final_steps_stay, steps_after, MoveStep};
use crate::task::repo::{bucket_plan, evict_count, removal_paths, EntryView};

verus! {

/// Run parameters of one pipeline execution.
pub struct TaskConfig {
    /// Decide and report, but leave the filesystem as it is.
    pub dry_run: bool,
    pub enable_repo: bool,
    pub enable_inbox: bool,
    pub enable_sync: bool,
    pub inbox_dir: String,
    pub repo_dir: String,
    pub sync_dir: String,
    /// Archives to keep per tag (0: no limit).
    pub keep_count: u32,
    /// Bytes to keep per tag (0: no limit).
    pub keep_size: u64,
    pub check_rclone_update: bool,
    /// Remote of the sync stage, `name:`, or empty for none.
    pub remote: String,
}

impl Default for TaskConfig {
    /// Nothing enabled, no limits, empty paths.
    fn default() -> (r: TaskConfig)
        ensures
            !r.dry_run && !r.enable_repo && !r.enable_inbox && !r.enable_sync,
            r.inbox_dir@.len() == 0 && r.repo_dir@.len() == 0 && r.sync_dir@.len() == 0,
            r.keep_count == 0 && r.keep_size == 0,
            !r.check_rclone_update && r.remote@.len() == 0,
    {
        TaskConfig {
            dry_run: false,
            enable_repo: false,
            enable_inbox: false,
            enable_sync: false,
            inbox_dir: String::new(),
            repo_dir: String::new(),
            sync_dir: String::new(),
            keep_count: 0,
            keep_size: 0,
            check_rclone_update: false,
            remote: String::new(),
        }
    }
}

/// A stage of a pipeline run.
#[derive(Debug, Clone, Copy, PartialEq, Eq, Structural)]
pub enum Stage {
    /// Create the inbox, repository and sync directories and set their modes.
    Prepare,
    /// Retention cleanup of the repository.
    Repo,
    /// Ingestion of the inbox.
    Inbox,
    /// The sync collaborator.
    Sync,
}

/// The stages of a run, in their fixed order: preparation, then each enabled stage.
pub open spec fn stages_of(config: TaskConfig) -> Seq<Stage> {
    seq![Stage::Prepare] + (if config.enable_repo {
        seq![Stage::Repo]
    } else {
        Seq::empty()
    }) + (if config.enable_inbox {
        seq![Stage::Inbox]
    } else {
        Seq::empty()
    }) + (if config.enable_sync {
        seq![Stage::Sync]
    } else {
        Seq::empty()
    })
}

/// The stages that one pipeline run carries out, in order. A run with only `Prepare` has no
/// stage enabled, which the caller reports. A failing stage ends the run.
pub fn run(config: &TaskConfig) -> (r: Vec<Stage>)
    ensures
        r@ == stages_of(*config),
{
    let mut stages: Vec<Stage> = Vec::new();
    stages.push(Stage::Prepare);
    if config.enable_repo {
        stages.push(Stage::Repo);
    }
    if config.enable_inbox {
        stages.push(Stage::Inbox);
    }
    if config.enable_sync {
        stages.push(Stage::Sync);
    }
    assert(stages@ =~= stages_of(*config));
    stages
}

/// Whether any stage besides preparation is enabled.
pub fn any_enabled(config: &TaskConfig) -> (r: bool)
    ensures
        r == (stages_of(*config).len() > 1),
{
    config.enable_repo || config.enable_inbox || config.enable_sync
}

/// The directories that preparation creates, with their permission bits: the inbox is
/// group-writable (0o770), the repository and sync directories are private (0o700).
pub fn prepare_dirs(config: &TaskConfig) -> (r: Vec<(String, u32)>)
    ensures
        r@.len() == 3,
        r@[0].0@ == config.inbox_dir@ && r@[0].1 == 0o770,
        r@[1].0@ == config.repo_dir@ && r@[1].1 == 0o700,
        r@[2].0@ == config.sync_dir@ && r@[2].1 == 0o700,
{
    let mut dirs: Vec<(String, u32)> = Vec::new();
    dirs.push((config.inbox_dir.clone(), 0o770));
    dirs.push((config.repo_dir.clone(), 0o700));
    dirs.push((config.sync_dir.clone(), 0o700));
    dirs
}

/// A dry run decides what a live run with the same limits decides, and touches no archive:
/// each bucket's cleanup decisions are the same, no file is removed, and no inbox move takes a
/// single step (not even creating its directory), whatever the outcomes would have been.
pub proof fn lemma_dry_run_changes_nothing(
    live: TaskConfig,
    dry: TaskConfig,
    bucket: Seq<EntryView>,
    plan: Seq<Seq<(Seq<char>, bool)>>,
    outcomes: Seq<bool>,
)
    requires
        dry.dry_run,
        live.keep_count == dry.keep_count,
        live.keep_size == dry.keep_size,
    ensures
        bucket_plan(bucket, evict_count(bucket, live.keep_count as int, live.keep_size as int))
            == bucket_plan(bucket, evict_count(bucket, dry.keep_count as int, dry.keep_size as int)),
        removal_paths(plan, dry.dry_run) == Seq::<Seq<char>>::empty(),
        first_step_of(dry.dry_run) == MoveStep::Done,
        steps_after(first_step_of(dry.dry_run), outcomes) == MoveStep::Done,
{
    lemma_final_steps_stay(MoveStep::Done, outcomes);
}

} // verus!
