//! Running one task on one file.
//!
//! A task is run as a short exchange: the execution names the next file
//! operation, the caller performs it and reports how it went, and the
//! execution decides what follows. So every choice (where the file goes, when
//! a move falls back to copying, when an archive is left alone) is made
//! here, and nothing here touches the disk.

use vstd::prelude::*;
use crate::config::{TaskConf, TaskView};
use crate::dispatcher::{Dispatch, DispatchView};
use crate::paths::{join, law_join_ends_in_the_name, spec_base_name, spec_is_file_name, spec_join};

verus! {

/// Whether `bytes` are an archive that the `zip` crate can open: whether
/// `zip::ZipArchive::new` returns `Ok` for a reader over them.
pub uninterp spec fn zip_opens(bytes: Seq<u8>) -> bool;

/// `zip::ZipArchive::new` on a cursor over `bytes`. Trusted: whether it
/// succeeds depends on the bytes alone. Only that much is kept of what it
/// returns; the archive itself is dropped, its entries unread.
#[verifier::external_body]
fn archive_opens(bytes: &[u8]) -> (opens: bool)
    ensures
        opens == zip_opens(bytes@),
{
    zip::ZipArchive::new(std::io::Cursor::new(bytes)).is_ok()
}

/// How a task ended.
#[derive(Debug, Clone, Copy, PartialEq, Eq, Structural)]
pub enum Outcome {
    /// The file was copied.
    Copied,
    /// The copy failed.
    CopyFailed,
    /// The file was renamed into place.
    Moved,
    /// The rename failed; the file was copied and the source deleted.
    MovedByFallback,
    /// The rename failed and the file was copied, but the source could not
    /// be deleted: the file now exists twice.
    MovedWithDuplicate,
    /// The rename failed and so did the copy: the source is as it was.
    MoveFailed,
    /// A directory of the file's name is there already: nothing was done.
    AlreadyUnpacked,
    /// The file was opened as an archive.
    ArchiveOpened,
    /// The file is no archive, or a damaged one.
    ArchiveRejected,
    /// The file could not be read.
    ArchiveUnreadable,
}

/// How an outcome is to be reported.
#[derive(Debug, Clone, Copy, PartialEq, Eq, Structural)]
pub enum Severity {
    /// The task did what it is for.
    Success,
    /// The task did what it is for and left something behind.
    Degraded,
    /// The task found nothing to do.
    NoOp,
    /// The task failed. Only this one dispatch is affected.
    Failure,
}

pub open spec fn spec_severity(outcome: Outcome) -> Severity {
    match outcome {
        Outcome::Copied | Outcome::Moved | Outcome::MovedByFallback | Outcome::ArchiveOpened =>
            Severity::Success,
        Outcome::MovedWithDuplicate => Severity::Degraded,
        Outcome::AlreadyUnpacked => Severity::NoOp,
        Outcome::CopyFailed | Outcome::MoveFailed | Outcome::ArchiveRejected
        | Outcome::ArchiveUnreadable => Severity::Failure,
    }
}

/// How `outcome` is to be reported.
pub fn severity(outcome: Outcome) -> (severity: Severity)
    ensures
        severity == spec_severity(outcome),
{
    match outcome {
        Outcome::Copied | Outcome::Moved | Outcome::MovedByFallback | Outcome::ArchiveOpened =>
            Severity::Success,
        Outcome::MovedWithDuplicate => Severity::Degraded,
        Outcome::AlreadyUnpacked => Severity::NoOp,
        Outcome::CopyFailed | Outcome::MoveFailed | Outcome::ArchiveRejected
        | Outcome::ArchiveUnreadable => Severity::Failure,
    }
}

pub open spec fn spec_archive_outcome(opens: bool) -> Outcome {
    if opens {
        Outcome::ArchiveOpened
    } else {
        Outcome::ArchiveRejected
    }
}

/// How an unpack attempt ends once the file has been read: by whether its
/// bytes open as an archive.
pub fn archive_outcome(opens: bool) -> (outcome: Outcome)
    ensures
        outcome == spec_archive_outcome(opens),
{
    if opens {
        Outcome::ArchiveOpened
    } else {
        Outcome::ArchiveRejected
    }
}

/// Where an execution stands: which operation it waits for, or how it ended.
#[derive(Debug, Clone, Copy, PartialEq, Eq, Structural)]
pub enum Stage {
    /// A copy task waits for its copy.
    Copying,
    /// A move task waits for the rename.
    Renaming,
    /// A move task, its rename failed, waits for the copy.
    FallbackCopying,
    /// A move task, copied, waits for the source to be deleted.
    Removing,
    /// An unpack task waits to hear whether the directory is there.
    Checking,
    /// An unpack task waits for the bytes of the file.
    Reading,
    Finished(Outcome),
}

/// One operation on the file system, asked of the caller.
#[derive(Debug, Clone, PartialEq, Eq)]
pub enum FsOp {
    /// Copy the file `from` to `to`, byte for byte.
    Copy { from: String, to: String },
    /// Rename `from` to `to`, in one step or not at all.
    Rename { from: String, to: String },
    /// Delete the file `path`.
    Remove { path: String },
    /// Say whether `path` is a directory.
    IsDir { path: String },
    /// Read the file `path`.
    Read { path: String },
}

/// An operation as a plain value.
pub enum FsOpView {
    Copy { from: Seq<char>, to: Seq<char> },
    Rename { from: Seq<char>, to: Seq<char> },
    Remove { path: Seq<char> },
    IsDir { path: Seq<char> },
    Read { path: Seq<char> },
}

impl View for FsOp {
    type V = FsOpView;

    open spec fn view(&self) -> FsOpView {
        match self {
            FsOp::Copy { from, to } => FsOpView::Copy { from: from@, to: to@ },
            FsOp::Rename { from, to } => FsOpView::Rename { from: from@, to: to@ },
            FsOp::Remove { path } => FsOpView::Remove { path: path@ },
            FsOp::IsDir { path } => FsOpView::IsDir { path: path@ },
            FsOp::Read { path } => FsOpView::Read { path: path@ },
        }
    }
}

/// How an operation went.
#[derive(Debug, Clone, PartialEq, Eq)]
pub enum Reply {
    /// The copy, rename or deletion was done.
    Done,
    /// The operation failed.
    Failed,
    /// The answer to `IsDir`.
    Directory(bool),
    /// The answer to `Read`.
    Contents(Vec<u8>),
}

/// A reply as a plain value.
pub enum ReplyView {
    Done,
    Failed,
    Directory(bool),
    Contents(Seq<u8>),
}

impl View for Reply {
    type V = ReplyView;

    open spec fn view(&self) -> ReplyView {
        match self {
            Reply::Done => ReplyView::Done,
            Reply::Failed => ReplyView::Failed,
            Reply::Directory(is_dir) => ReplyView::Directory(*is_dir),
            Reply::Contents(bytes) => ReplyView::Contents(bytes@),
        }
    }
}

/// An execution as a plain value.
pub struct ExecutionView {
    /// The path of the file that the task is about.
    pub source: Seq<char>,
    /// The path of the file's name inside the task's directory.
    pub destination: Seq<char>,
    pub stage: Stage,
}

/// The directory that a task works towards.
pub open spec fn spec_task_dir(task: TaskView) -> Seq<char> {
    match task {
        TaskView::Copy { target } => target,
        TaskView::Move { target } => target,
        TaskView::TryUnpack { pwd } => pwd,
    }
}

/// The stage in which a task starts.
pub open spec fn spec_first_stage(task: TaskView) -> Stage {
    match task {
        TaskView::Copy { .. } => Stage::Copying,
        TaskView::Move { .. } => Stage::Renaming,
        TaskView::TryUnpack { .. } => Stage::Checking,
    }
}

/// The execution of `dispatch` before anything has been done. Its
/// destination is the file's name inside the task's directory.
pub open spec fn spec_begin(dispatch: DispatchView) -> ExecutionView {
    ExecutionView {
        source: dispatch.path,
        destination: spec_join(spec_task_dir(dispatch.task), dispatch.file_name),
        stage: spec_first_stage(dispatch.task),
    }
}

/// The operation that an execution waits for, if it has not ended.
pub open spec fn spec_request(e: ExecutionView) -> Option<FsOpView> {
    match e.stage {
        Stage::Copying | Stage::FallbackCopying => Some(
            FsOpView::Copy { from: e.source, to: e.destination },
        ),
        Stage::Renaming => Some(FsOpView::Rename { from: e.source, to: e.destination }),
        Stage::Removing => Some(FsOpView::Remove { path: e.source }),
        Stage::Checking => Some(FsOpView::IsDir { path: e.destination }),
        Stage::Reading => Some(FsOpView::Read { path: e.source }),
        Stage::Finished(_) => None,
    }
}

/// The stage that follows `stage` on `reply`.
///
/// A copy ends with its one operation. A move tries the rename; if that
/// fails it copies, and deletes the source only after the copy went well. An
/// unpack attempt ends at once where the directory is there, and else reads
/// the file and tries to open it; a path that cannot be examined counts as no
/// directory. A reply that does not answer the operation asked changes
/// nothing.
pub open spec fn spec_next_stage(stage: Stage, reply: ReplyView) -> Stage {
    match (stage, reply) {
        (Stage::Copying, ReplyView::Done) => Stage::Finished(Outcome::Copied),
        (Stage::Copying, ReplyView::Failed) => Stage::Finished(Outcome::CopyFailed),
        (Stage::Renaming, ReplyView::Done) => Stage::Finished(Outcome::Moved),
        (Stage::Renaming, ReplyView::Failed) => Stage::FallbackCopying,
        (Stage::FallbackCopying, ReplyView::Done) => Stage::Removing,
        (Stage::FallbackCopying, ReplyView::Failed) => Stage::Finished(Outcome::MoveFailed),
        (Stage::Removing, ReplyView::Done) => Stage::Finished(Outcome::MovedByFallback),
        (Stage::Removing, ReplyView::Failed) => Stage::Finished(Outcome::MovedWithDuplicate),
        (Stage::Checking, ReplyView::Directory(true)) => Stage::Finished(Outcome::AlreadyUnpacked),
        (Stage::Checking, ReplyView::Directory(false)) => Stage::Reading,
        (Stage::Checking, ReplyView::Failed) => Stage::Reading,
        (Stage::Reading, ReplyView::Contents(bytes)) => Stage::Finished(
            spec_archive_outcome(zip_opens(bytes)),
        ),
        (Stage::Reading, ReplyView::Failed) => Stage::Finished(Outcome::ArchiveUnreadable),
        _ => stage,
    }
}

/// The execution after `reply`.
pub open spec fn spec_advance(e: ExecutionView, reply: ReplyView) -> ExecutionView {
    ExecutionView { stage: spec_next_stage(e.stage, reply), ..e }
}

/// One task on its way.
#[derive(Debug)]
pub struct Execution {
    source: String,
    destination: String,
    stage: Stage,
}

impl View for Execution {
    type V = ExecutionView;

    closed spec fn view(&self) -> ExecutionView {
        ExecutionView { source: self.source@, destination: self.destination@, stage: self.stage }
    }
}

impl Execution {
    /// Starts on `dispatch`: nothing has been done yet.
    pub fn begin(dispatch: &Dispatch) -> (e: Execution)
        ensures
            e@ == spec_begin(dispatch@),
    {
        let (destination, stage) = match &dispatch.task {
            TaskConf::Copy(conf) => (
                join(conf.target.as_str(), dispatch.file_name.as_str()),
                Stage::Copying,
            ),
            TaskConf::Move(conf) => (
                join(conf.target.as_str(), dispatch.file_name.as_str()),
                Stage::Renaming,
            ),
            TaskConf::TryUnpack(conf) => (
                join(conf.pwd.as_str(), dispatch.file_name.as_str()),
                Stage::Checking,
            ),
        };
        Execution { source: dispatch.path.clone(), destination, stage }
    }

    /// Where the execution stands.
    pub fn stage(&self) -> (stage: Stage)
        ensures
            stage == self@.stage,
    {
        self.stage
    }

    /// The path of the file that the task is about.
    pub fn source(&self) -> (path: &str)
        ensures
            path@ == self@.source,
    {
        self.source.as_str()
    }

    /// The path of the file's name inside the task's directory.
    pub fn destination(&self) -> (path: &str)
        ensures
            path@ == self@.destination,
    {
        self.destination.as_str()
    }

    /// How the execution ended, once it has.
    pub fn outcome(&self) -> (outcome: Option<Outcome>)
        ensures
            outcome == (match self@.stage {
                Stage::Finished(o) => Some(o),
                _ => None,
            }),
    {
        match self.stage {
            Stage::Finished(o) => Some(o),
            _ => None,
        }
    }

    /// The operation to perform now, or `None` once the execution has ended.
    pub fn request(&self) -> (op: Option<FsOp>)
        ensures
            op is Some <==> spec_request(self@) is Some,
            op matches Some(o) ==> Some(o@) == spec_request(self@),
    {
        match self.stage {
            Stage::Copying | Stage::FallbackCopying => Some(
                FsOp::Copy { from: self.source.clone(), to: self.destination.clone() },
            ),
            Stage::Renaming => Some(
                FsOp::Rename { from: self.source.clone(), to: self.destination.clone() },
            ),
            Stage::Removing => Some(FsOp::Remove { path: self.source.clone() }),
            Stage::Checking => Some(FsOp::IsDir { path: self.destination.clone() }),
            Stage::Reading => Some(FsOp::Read { path: self.source.clone() }),
            Stage::Finished(_) => None,
        }
    }

    /// Takes the report on the operation that `request` named, and moves on.
    pub fn advance(&mut self, reply: &Reply)
        ensures
            final(self)@ == spec_advance(old(self)@, reply@),
    {
        let next = match (self.stage, reply) {
            (Stage::Copying, Reply::Done) => Stage::Finished(Outcome::Copied),
            (Stage::Copying, Reply::Failed) => Stage::Finished(Outcome::CopyFailed),
            (Stage::Renaming, Reply::Done) => Stage::Finished(Outcome::Moved),
            (Stage::Renaming, Reply::Failed) => Stage::FallbackCopying,
            (Stage::FallbackCopying, Reply::Done) => Stage::Removing,
            (Stage::FallbackCopying, Reply::Failed) => Stage::Finished(Outcome::MoveFailed),
            (Stage::Removing, Reply::Done) => Stage::Finished(Outcome::MovedByFallback),
            (Stage::Removing, Reply::Failed) => Stage::Finished(Outcome::MovedWithDuplicate),
            (Stage::Checking, Reply::Directory(true)) => Stage::Finished(Outcome::AlreadyUnpacked),
            (Stage::Checking, Reply::Directory(false)) => Stage::Reading,
            (Stage::Checking, Reply::Failed) => Stage::Reading,
            (Stage::Reading, Reply::Contents(bytes)) => Stage::Finished(
                archive_outcome(archive_opens(bytes.as_slice())),
            ),
            (Stage::Reading, Reply::Failed) => Stage::Finished(Outcome::ArchiveUnreadable),
            (stage, _) => stage,
        };
        self.stage = next;
    }
}

/// A file arrives under the name it had: whatever the task and its
/// directory, the destination ends in the file's name.
pub proof fn law_destination_keeps_the_name(dispatch: DispatchView)
    requires
        spec_is_file_name(dispatch.file_name),
    ensures
        spec_base_name(spec_begin(dispatch).destination) == Some(dispatch.file_name),
{
    law_join_ends_in_the_name(spec_task_dir(dispatch.task), dispatch.file_name);
}

} // verus!
