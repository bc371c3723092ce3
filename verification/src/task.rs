//! Work on the file system, one step at a time.
//!
//! A [`Task`] says what is to be done next outside the tree; a [`Reply`] says
//! how that went. What follows from a reply is the tree's business.

use std::path::{Path, PathBuf};
use vstd::prelude::*;

use crate::listing::Found;
use crate::path::display;

verus! {

/// What is to be done next.
#[derive(Debug)]
pub enum Task {
    /// Find out whether `path` exists, to be answered with [`Reply::Exists`].
    CheckCreate(Creation),
    /// Create `path`, with the directories on the way, to be answered with
    /// [`Reply::Done`] or [`Reply::Failed`].
    Create(Creation),
    /// Find out whether `to` exists, to be answered with [`Reply::Exists`].
    CheckRename(Renaming),
    /// Move `from` to `to`, to be answered with [`Reply::Done`] or
    /// [`Reply::Failed`].
    Rename(Renaming),
    /// Delete `path`, to be answered with [`Reply::Done`] or
    /// [`Reply::Failed`].
    Delete(Deletion),
    /// Read `directory`, to be answered with [`Reply::Listing`] or
    /// [`Reply::Failed`].
    Refresh(Refreshing),
    /// Read `path`, to be answered with [`Reply::Listing`] or
    /// [`Reply::Failed`].
    Expand(Expansion),
    /// Read `directory`, to be answered with [`Reply::Listing`] or
    /// [`Reply::Failed`].
    Reveal(Revelation),
}

/// A file or a directory to be created.
#[derive(Debug)]
pub struct Creation {
    /// The directory it lands in.
    pub directory: PathBuf,
    /// The row of that directory. `None` means the root, which has no row of
    /// its own.
    pub index: Option<usize>,
    pub path: PathBuf,
    /// Whether it is to be a directory.
    pub directory_wanted: bool,
}

/// An entry to be renamed.
#[derive(Debug)]
pub struct Renaming {
    pub from: PathBuf,
    pub to: PathBuf,
}

/// An entry to be deleted.
#[derive(Debug)]
pub struct Deletion {
    /// The directory it lives in.
    pub directory: PathBuf,
    /// The row of that directory, as in [`Creation`].
    pub index: Option<usize>,
    pub path: PathBuf,
    /// Directories are removed with their contents; files never need this.
    pub recursive: bool,
}

/// A directory to be read again after its contents changed.
#[derive(Debug)]
pub struct Refreshing {
    pub directory: PathBuf,
    /// The row of that directory, as in [`Creation`].
    pub index: Option<usize>,
    /// The path to put the cursor on afterwards.
    pub select: Option<PathBuf>,
}

/// A directory to be expanded.
#[derive(Debug)]
pub struct Expansion {
    pub index: usize,
    pub path: PathBuf,
}

/// A directory to be expanded on the way to a path.
#[derive(Debug)]
pub struct Revelation {
    pub index: usize,
    pub directory: PathBuf,
    /// The path to be shown in the end.
    pub target: PathBuf,
}

/// How it went.
#[derive(Debug)]
pub enum Reply {
    Exists(bool),
    Done,
    /// What was found in the directory.
    Listing(Vec<Found>),
    /// It did not work, and why.
    Failed(String),
}

/// What follows from a reply.
#[derive(Debug)]
pub enum Step {
    /// Nothing more.
    Finished,
    /// Nothing more but to show this error.
    Report(String),
    /// Do this next.
    Next(Task),
}

/// What a task says, with paths as texts.
pub enum TaskView {
    CheckCreate(CreationView),
    Create(CreationView),
    CheckRename(RenamingView),
    Rename(RenamingView),
    Delete(DeletionView),
    Refresh(RefreshingView),
    Expand { index: int, path: Seq<u8> },
    Reveal { index: int, directory: Seq<u8>, target: Seq<u8> },
}

/// What a [`Creation`] says.
pub struct CreationView {
    pub directory: Seq<u8>,
    pub index: Option<int>,
    pub path: Seq<u8>,
    pub directory_wanted: bool,
}

/// What a [`Renaming`] says.
pub struct RenamingView {
    pub from: Seq<u8>,
    pub to: Seq<u8>,
}

/// What a [`Deletion`] says.
pub struct DeletionView {
    pub directory: Seq<u8>,
    pub index: Option<int>,
    pub path: Seq<u8>,
    pub recursive: bool,
}

/// What a [`Refreshing`] says.
pub struct RefreshingView {
    pub directory: Seq<u8>,
    pub index: Option<int>,
    pub select: Option<Seq<u8>>,
}

/// What a [`Reply`] says.
pub enum ReplyView {
    Exists(bool),
    Done,
    Listing(Seq<Found>),
    Failed(Seq<char>),
}

/// What a [`Step`] says.
pub enum StepView {
    Finished,
    Report(Seq<char>),
    Next(TaskView),
}

/// A row number, if there is one.
pub open spec fn row_of(index: Option<usize>) -> Option<int> {
    match index {
        Some(index) => Some(index as int),
        None => None,
    }
}

impl View for Creation {
    type V = CreationView;

    open spec fn view(&self) -> CreationView {
        CreationView {
            directory: crate::path::buf_text(&self.directory),
            index: row_of(self.index),
            path: crate::path::buf_text(&self.path),
            directory_wanted: self.directory_wanted,
        }
    }
}

impl View for Renaming {
    type V = RenamingView;

    open spec fn view(&self) -> RenamingView {
        RenamingView {
            from: crate::path::buf_text(&self.from),
            to: crate::path::buf_text(&self.to),
        }
    }
}

impl View for Deletion {
    type V = DeletionView;

    open spec fn view(&self) -> DeletionView {
        DeletionView {
            directory: crate::path::buf_text(&self.directory),
            index: row_of(self.index),
            path: crate::path::buf_text(&self.path),
            recursive: self.recursive,
        }
    }
}

impl View for Refreshing {
    type V = RefreshingView;

    open spec fn view(&self) -> RefreshingView {
        RefreshingView {
            directory: crate::path::buf_text(&self.directory),
            index: row_of(self.index),
            select: match self.select {
                Some(path) => Some(crate::path::buf_text(&path)),
                None => None,
            },
        }
    }
}

impl View for Task {
    type V = TaskView;

    open spec fn view(&self) -> TaskView {
        match self {
            Task::CheckCreate(creation) => TaskView::CheckCreate(creation@),
            Task::Create(creation) => TaskView::Create(creation@),
            Task::CheckRename(renaming) => TaskView::CheckRename(renaming@),
            Task::Rename(renaming) => TaskView::Rename(renaming@),
            Task::Delete(deletion) => TaskView::Delete(deletion@),
            Task::Refresh(refreshing) => TaskView::Refresh(refreshing@),
            Task::Expand(expansion) => TaskView::Expand {
                index: expansion.index as int,
                path: crate::path::buf_text(&expansion.path),
            },
            Task::Reveal(revelation) => TaskView::Reveal {
                index: revelation.index as int,
                directory: crate::path::buf_text(&revelation.directory),
                target: crate::path::buf_text(&revelation.target),
            },
        }
    }
}

impl View for Reply {
    type V = ReplyView;

    open spec fn view(&self) -> ReplyView {
        match self {
            Reply::Exists(exists) => ReplyView::Exists(*exists),
            Reply::Done => ReplyView::Done,
            Reply::Listing(found) => ReplyView::Listing(found@),
            Reply::Failed(error) => ReplyView::Failed(error@),
        }
    }
}

impl View for Step {
    type V = StepView;

    open spec fn view(&self) -> StepView {
        match self {
            Step::Finished => StepView::Finished,
            Step::Report(message) => StepView::Report(message@),
            Step::Next(task) => StepView::Next(task@),
        }
    }
}

/// The error for a path that is taken.
pub open spec fn taken_message(path: Seq<u8>) -> Seq<char> {
    crate::path::displayed_text(path) + " already exists"@
}

/// The error for an action on a path that did not work.
pub open spec fn failure_message(action: Seq<char>, path: Seq<u8>, error: Seq<char>) -> Seq<char> {
    "Failed to "@ + action + " "@ + crate::path::displayed_text(path) + ": "@ + error
}

/// The error for a path that is taken.
pub fn taken(path: &Path) -> (message: String)
    ensures
        message@ == taken_message(crate::path::path_text(path)),
{
    let mut message = display(path);
    message.append(" already exists");
    message
}

/// The error for an action on a path that did not work.
pub fn failure(action: &str, path: &Path, error: &str) -> (message: String)
    ensures
        message@ == failure_message(action@, crate::path::path_text(path), error@),
{
    let mut message = "Failed to ".to_owned();
    message.append(action);
    message.append(" ");
    message.append(display(path).as_str());
    message.append(": ");
    message.append(error);
    message
}

} // verus!
