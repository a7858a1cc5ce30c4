//! Ingestion: files dropped into the inbox are filed under `repo/<tag>/`.
use vstd::prelude::*;
use vstd::string::StringExecFns;

use crate::fssys::{base_name, file_name_parts, parse_file_name, FileInfo};
use crate::task::TaskConfig;

verus! {

/// `a` and `b` joined with one `/` between them.
pub open spec fn join_path(a: Seq<char>, b: Seq<char>) -> Seq<char> {
    if a.len() == 0 {
        b
    } else if a.last() == '/' {
        a + b
    } else {
        a + seq!['/'] + b
    }
}

fn join(a: &str, b: &str) -> (r: String)
    ensures
        r@ == join_path(a@, b@),
{
    let n = a.unicode_len();
    let mut s = a.to_owned();
    if n == 0 {
        return b.to_owned();
    }
    if a.get_char(n - 1) != '/' {
        s.append("/");
        proof {
            reveal_strlit("/");
        }
    }
    s.append(b);
    s
}

/// Where one inbox file goes.
pub struct MovePlan {
    pub src: String,
    /// `repo/<tag>`, created before the move.
    pub dir: String,
    /// `repo/<tag>/<file name>`: the name is kept as it is.
    pub dst: String,
}

pub open spec fn move_view(m: MovePlan) -> (Seq<char>, Seq<char>, Seq<char>) {
    (m.src@, m.dir@, m.dst@)
}

/// The move of one file, if it is a regular file with an archive name.
pub open spec fn file_move(repo_dir: Seq<char>, f: FileInfo) -> Option<
    (Seq<char>, Seq<char>, Seq<char>),
> {
    match file_name_parts(f.path@) {
        Some((name, tag, _date)) => if f.is_file {
            let dir = join_path(repo_dir, tag);
            Some((f.path@, dir, join_path(dir, name)))
        } else {
            None
        },
        None => None,
    }
}

/// The moves for the files of the inbox, in listing order; the others stay where they are.
pub open spec fn inbox_moves(repo_dir: Seq<char>, files: Seq<FileInfo>) -> Seq<
    (Seq<char>, Seq<char>, Seq<char>),
>
    decreases files.len(),
{
    if files.len() == 0 {
        Seq::empty()
    } else {
        let rest = inbox_moves(repo_dir, files.drop_last());
        match file_move(repo_dir, files.last()) {
            Some(m) => rest.push(m),
            None => rest,
        }
    }
}

/// Ingestion of an inbox listing into the repository at `repo_dir`: for each regular file
/// with an archive name, its destination `repo_dir/<tag>/<file name>`.
pub fn run(config: &TaskConfig, repo_dir: &str, files: &Vec<FileInfo>) -> (r: Vec<MovePlan>)
    ensures
        r@.map_values(|m: MovePlan| move_view(m)) == inbox_moves(repo_dir@, files@),
{
    let mut result: Vec<MovePlan> = Vec::new();
    let mut i: usize = 0;
    assert(files@.take(0) =~= Seq::<FileInfo>::empty());
    assert(result@.map_values(|m: MovePlan| move_view(m)) =~= Seq::empty());
    while i < files.len()
        invariant
            0 <= i <= files@.len(),
            result@.map_values(|m: MovePlan| move_view(m)) == inbox_moves(
                repo_dir@,
                files@.take(i as int),
            ),
        decreases files@.len() - i,
    {
        let f = &files[i];
        assert(files@.take(i + 1).drop_last() =~= files@.take(i as int));
        assert(files@.take(i + 1).last() == *f);
        let ghost before = result@;
        if f.is_file {
            match parse_file_name(f.path.as_str()) {
                Some((name, tag, _date)) => {
                    let dir = join(repo_dir, tag.as_str());
                    let dst = join(dir.as_str(), name.as_str());
                    let m = MovePlan { src: f.path.clone(), dir, dst };
                    result.push(m);
                    assert(result@ =~= before.push(m));
                    assert(result@.map_values(|m: MovePlan| move_view(m)) =~= before.map_values(
                        |m: MovePlan| move_view(m),
                    ).push(move_view(m)));
                },
                None => {},
            }
        }
        i = i + 1;
    }
    assert(files@.take(files@.len() as int) =~= files@);
    result
}

/// One step of moving a file into the repository.
#[derive(Debug, Clone, Copy, PartialEq, Eq, Structural)]
pub enum MoveStep {
    /// Create the destination directory.
    MakeDir,
    /// Rename the file to its destination.
    Rename,
    /// Copy the file to its destination (the rename failed).
    Copy,
    /// Remove the source (the copy succeeded).
    RemoveSource,
    /// The file is at its destination, or nothing is to be done.
    Done,
    /// A step that has no fallback failed.
    Failed,
}

/// The first step of a move; a dry run has nothing to do.
pub fn first_step(dry_run: bool) -> (r: MoveStep)
    ensures
        r == first_step_of(dry_run),
{
    if dry_run {
        MoveStep::Done
    } else {
        MoveStep::MakeDir
    }
}

pub open spec fn step_after(step: MoveStep, ok: bool) -> MoveStep {
    match step {
        MoveStep::MakeDir => if ok {
            MoveStep::Rename
        } else {
            MoveStep::Failed
        },
        MoveStep::Rename => if ok {
            MoveStep::Done
        } else {
            MoveStep::Copy
        },
        MoveStep::Copy => if ok {
            MoveStep::RemoveSource
        } else {
            MoveStep::Failed
        },
        MoveStep::RemoveSource => if ok {
            MoveStep::Done
        } else {
            MoveStep::Failed
        },
        MoveStep::Done => MoveStep::Done,
        MoveStep::Failed => MoveStep::Failed,
    }
}

/// The step after `step`, given whether it succeeded: a failed rename falls back to copying,
/// and the source is removed only after a successful copy.
pub fn next_step(step: MoveStep, ok: bool) -> (r: MoveStep)
    ensures
        r == step_after(step, ok),
{
    match step {
        MoveStep::MakeDir => if ok {
            MoveStep::Rename
        } else {
            MoveStep::Failed
        },
        MoveStep::Rename => if ok {
            MoveStep::Done
        } else {
            MoveStep::Copy
        },
        MoveStep::Copy => if ok {
            MoveStep::RemoveSource
        } else {
            MoveStep::Failed
        },
        MoveStep::RemoveSource => if ok {
            MoveStep::Done
        } else {
            MoveStep::Failed
        },
        MoveStep::Done => MoveStep::Done,
        MoveStep::Failed => MoveStep::Failed,
    }
}

/// The step reached from `step` after the given outcomes.
pub open spec fn steps_after(step: MoveStep, outcomes: Seq<bool>) -> MoveStep
    decreases outcomes.len(),
{
    if outcomes.len() == 0 {
        step
    } else {
        steps_after(step_after(step, outcomes[0]), outcomes.drop_first())
    }
}

/// `Done` and `Failed` are final.
pub proof fn lemma_final_steps_stay(step: MoveStep, outcomes: Seq<bool>)
    requires
        step == MoveStep::Done || step == MoveStep::Failed,
    ensures
        steps_after(step, outcomes) == step,
    decreases outcomes.len(),
{
    if outcomes.len() > 0 {
        lemma_final_steps_stay(step, outcomes.drop_first());
    }
}

/// A live move ends with the file at its destination only through a successful rename, or
/// through a successful copy followed by the removal of its source.
pub proof fn lemma_move_done_means_moved(outcomes: Seq<bool>)
    ensures
        steps_after(first_step_of(false), outcomes) == MoveStep::Done ==> {
            ||| outcomes.len() >= 2 && outcomes[0] && outcomes[1]
            ||| outcomes.len() >= 4 && outcomes[0] && !outcomes[1] && outcomes[2] && outcomes[3]
        },
{
    let o = outcomes;
    if o.len() >= 1 {
        let o1 = o.drop_first();
        if !o[0] {
            lemma_final_steps_stay(MoveStep::Failed, o1);
        } else if o1.len() >= 1 {
            let o2 = o1.drop_first();
            assert(steps_after(MoveStep::MakeDir, o) == steps_after(MoveStep::Rename, o1));
            if o1[0] {
                lemma_final_steps_stay(MoveStep::Done, o2);
            } else if o2.len() >= 1 {
                let o3 = o2.drop_first();
                assert(steps_after(MoveStep::Rename, o1) == steps_after(MoveStep::Copy, o2));
                if !o2[0] {
                    lemma_final_steps_stay(MoveStep::Failed, o3);
                } else if o3.len() >= 1 {
                    assert(steps_after(MoveStep::Copy, o2) == steps_after(MoveStep::RemoveSource, o3));
                    let o4 = o3.drop_first();
                    if o3[0] {
                        lemma_final_steps_stay(MoveStep::Done, o4);
                    } else {
                        lemma_final_steps_stay(MoveStep::Failed, o4);
                    }
                }
            }
        }
    }
}

/// A dry run moves nothing: its first step is already the last.
pub open spec fn first_step_of(dry_run: bool) -> MoveStep {
    if dry_run {
        MoveStep::Done
    } else {
        MoveStep::MakeDir
    }
}

} // verus!
