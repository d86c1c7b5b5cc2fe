//! Per-file work: which files of the source directory get a worker, and
//! what a worker does with the coordinator's reply.
use vstd::prelude::*;
use crate::classify::{
    extension_of, join_path, join_spec, target_dir_for_extension, target_dir_spec,
};
use crate::coordinator::{Reply, ReplyView};

verus! {

/// One immediate entry of the source directory.
#[derive(Debug)]
pub struct SourceEntry {
    /// The entry's full path.
    pub path: String,
    /// Its file name, the last component of `path`.
    pub name: String,
    /// Whether it is a regular file; anything else is passed over.
    pub is_file: bool,
}

/// The work for one file: copy `source` into directory `target` under `name`.
#[derive(Debug)]
pub struct FileTask {
    pub source: String,
    pub name: String,
    pub target: String,
}

pub struct TaskView {
    pub source: Seq<char>,
    pub name: Seq<char>,
    pub target: Seq<char>,
}

impl View for FileTask {
    type V = TaskView;

    open spec fn view(&self) -> TaskView {
        TaskView { source: self.source@, name: self.name@, target: self.target@ }
    }
}

/// The task for entry `e`, if it is a file with an extension.
pub open spec fn task_of(root: Seq<char>, e: SourceEntry) -> Option<TaskView> {
    if !e.is_file {
        None
    } else {
        match target_dir_spec(root, e.name@) {
            Some(t) => Some(TaskView { source: e.path@, name: e.name@, target: t }),
            None => None,
        }
    }
}

/// The tasks for the entries `es`, in their order.
pub open spec fn planned(root: Seq<char>, es: Seq<SourceEntry>) -> Seq<TaskView>
    decreases es.len(),
{
    if es.len() == 0 {
        seq![]
    } else {
        let p = planned(root, es.drop_last());
        match task_of(root, es.last()) {
            Some(t) => p.push(t),
            None => p,
        }
    }
}

/// How many entries of `es` are files without an extension.
pub open spec fn skipped_count(es: Seq<SourceEntry>) -> nat
    decreases es.len(),
{
    if es.len() == 0 {
        0
    } else {
        let e = es.last();
        skipped_count(es.drop_last()) + if e.is_file && extension_of(e.name@) is None {
            1nat
        } else {
            0nat
        }
    }
}

/// How many entries of `es` are regular files.
pub open spec fn file_count(es: Seq<SourceEntry>) -> nat
    decreases es.len(),
{
    if es.len() == 0 {
        0
    } else {
        file_count(es.drop_last()) + if es.last().is_file {
            1nat
        } else {
            0nat
        }
    }
}

/// Planning accounts for every file: each regular file either becomes a
/// task or is skipped for want of an extension, and each task comes from a
/// regular file whose extension `e` gives it the target `root/e`.
pub proof fn lemma_plan_covers_every_file(root: Seq<char>, es: Seq<SourceEntry>)
    ensures
        planned(root, es).len() + skipped_count(es) == file_count(es),
        forall|k: int|
            0 <= k < planned(root, es).len() ==> exists|i: int|
                0 <= i < es.len() && es[i].is_file && (extension_of(es[i].name@) matches Some(e)
                    && #[trigger] planned(root, es)[k] == (TaskView {
                    source: es[i].path@,
                    name: es[i].name@,
                    target: join_spec(root, e),
                })),
    decreases es.len(),
{
    if es.len() > 0 {
        let init = es.drop_last();
        lemma_plan_covers_every_file(root, init);
        let p = planned(root, init);
        assert forall|k: int| 0 <= k < planned(root, es).len() implies exists|i: int|
            0 <= i < es.len() && es[i].is_file && (extension_of(es[i].name@) matches Some(e)
                && #[trigger] planned(root, es)[k] == (TaskView {
                source: es[i].path@,
                name: es[i].name@,
                target: join_spec(root, e),
            })) by {
            if k < p.len() {
                assert(planned(root, es)[k] == p[k]);
                let i = choose|i: int|
                    0 <= i < init.len() && init[i].is_file && (extension_of(init[i].name@) matches Some(
                        e,
                    ) && p[k] == (TaskView {
                        source: init[i].path@,
                        name: init[i].name@,
                        target: join_spec(root, e),
                    }));
                assert(es[i] == init[i]);
            } else {
                assert(es[es.len() - 1] == es.last());
            }
        }
    }
}

/// The files of a source directory that get a worker, and how many were
/// skipped for want of an extension.
#[derive(Debug)]
pub struct Plan {
    pub tasks: Vec<FileTask>,
    pub skipped: usize,
}

/// Sorts the entries of a source directory into tasks under `root`. Entries
/// that are not regular files are passed over; files without an extension
/// are counted as skipped.
pub fn plan(root: &str, entries: &Vec<SourceEntry>) -> (r: Plan)
    ensures
        r.tasks@.map_values(|t: FileTask| t@) == planned(root@, entries@),
        r.skipped == skipped_count(entries@),
{
    let mut tasks: Vec<FileTask> = Vec::new();
    let mut skipped: usize = 0;
    let mut i: usize = 0;
    while i < entries.len()
        invariant
            i <= entries@.len(),
            tasks@.map_values(|t: FileTask| t@) == planned(root@, entries@.subrange(0, i as int)),
            skipped == skipped_count(entries@.subrange(0, i as int)),
            skipped <= i,
        decreases entries@.len() - i,
    {
        let e = &entries[i];
        let ghost before = tasks@.map_values(|t: FileTask| t@);
        let ghost prefix = entries@.subrange(0, i as int + 1);
        assert(prefix.drop_last() =~= entries@.subrange(0, i as int));
        assert(prefix.last() == *e);
        if e.is_file {
            let found = target_dir_for_extension(root, e.name.as_str());
            match found {
                Some(target) => {
                    let source = e.path.clone();
                    let name = e.name.clone();
                    tasks.push(FileTask { source, name, target });
                    assert(tasks@.map_values(|t: FileTask| t@) =~= before.push(
                        tasks@.last()@,
                    ));
                },
                None => {
                    skipped = skipped + 1;
                },
            }
        }
        i = i + 1;
    }
    assert(entries@.subrange(0, entries@.len() as int) =~= entries@);
    Plan { tasks, skipped }
}

/// How one file fared.
#[derive(Debug)]
pub enum Outcome {
    /// Copied from `source` to `destination`.
    Copied { source: String, destination: String },
    /// Its target directory is taken by something that is not a directory.
    NotADirectory { source: String, target: String },
    /// Its target directory could not be created.
    CreateFailed { source: String, target: String, cause: String },
    /// The copy itself failed.
    CopyFailed { source: String, destination: String, cause: String },
}

impl Outcome {
    pub open spec fn is_success(&self) -> bool {
        self is Copied
    }

    /// Whether the file was copied.
    pub fn succeeded(&self) -> (r: bool)
        ensures
            r == self.is_success(),
    {
        match self {
            Outcome::Copied { .. } => true,
            _ => false,
        }
    }
}

/// What a worker does once the coordinator has answered.
#[derive(Debug)]
pub enum WorkerStep {
    /// Copy the file from `from` to `to`, then report with `on_copied`.
    Copy { from: String, to: String },
    /// The worker is done without copying.
    Done(Outcome),
}

/// Where the file of `task` is copied to: its target directory joined with
/// its name.
pub fn destination(task: &FileTask) -> (r: String)
    ensures
        r@ == join_spec(task.target@, task.name@),
{
    join_path(task.target.as_str(), task.name.as_str())
}

/// A worker's decision on the coordinator's reply: copy into the target
/// directory when it is ready, else finish with the directory's failure.
pub fn on_reply(task: &FileTask, reply: Reply) -> (r: WorkerStep)
    ensures
        reply@ is Ready ==> (r matches WorkerStep::Copy { from, to } && from@ == task.source@
            && to@ == join_spec(task.target@, task.name@)),
        reply@ is NotADirectory ==> (r matches WorkerStep::Done(
            Outcome::NotADirectory { source, target },
        ) && source@ == task.source@ && target@ == task.target@),
        reply@ matches ReplyView::CreateFailed(_, c) ==> (r matches WorkerStep::Done(
            Outcome::CreateFailed { source, target, cause },
        ) && source@ == task.source@ && target@ == task.target@ && cause@ == c),
{
    match reply {
        Reply::Ready(_) => WorkerStep::Copy { from: task.source.clone(), to: destination(task) },
        Reply::NotADirectory(_) => WorkerStep::Done(
            Outcome::NotADirectory { source: task.source.clone(), target: task.target.clone() },
        ),
        Reply::CreateFailed(_, cause) => WorkerStep::Done(
            Outcome::CreateFailed {
                source: task.source.clone(),
                target: task.target.clone(),
                cause,
            },
        ),
    }
}

/// A worker's outcome once the copy from `from` to `to` has been tried.
pub fn on_copied(from: String, to: String, result: Result<(), String>) -> (r: Outcome)
    ensures
        result is Ok ==> (r matches Outcome::Copied { source, destination } && source == from
            && destination == to),
        result matches Err(c) ==> (r matches Outcome::CopyFailed { source, destination, cause }
            && source == from && destination == to && cause == c),
{
    match result {
        Ok(_) => Outcome::Copied { source: from, destination: to },
        Err(cause) => Outcome::CopyFailed { source: from, destination: to, cause },
    }
}

} // verus!
