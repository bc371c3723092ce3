//! The file tree itself: what it does with a key, with the answer to a prompt,
//! and with what comes back from the file system.
//!
//! Opened as a layer over the editor, it takes over the screen the way a picker
//! does and closes on `Esc`. Drawing, and whatever touches the file system or
//! the editor, is left to the caller: the tree says what is to be done.

use std::path::{Path, PathBuf};
use vstd::prelude::*;

use crate::command::{answers_yes, cancels, command, submits, Command};
use crate::event::Event;
use crate::layout::{prompt_row, Cursor, PreviewLayout, Rect};
use crate::listing::{read_dir, Found};
use crate::model::{Entry, Tree, TreeView};
use crate::path::{file_name, join, owned, same_path, Part};
use crate::preview::{Cached, Look, Previews};
use crate::task::{
    failure, taken, Creation, Deletion, Expansion, Refreshing, Renaming, Reply, Revelation, Step, Task,
};
use crate::task::{CreationView, DeletionView, RefreshingView, RenamingView, ReplyView, StepView, TaskView};
use crate::text::trim;

verus! {

/// Columns of indentation per nesting level.
pub const INDENT: usize = 2;

/// Width of the open/shut marker in front of every row, blank for files.
pub const MARKER_WIDTH: usize = 2;

/// Width of the icon column: one glyph and the space after it.
pub const ICON_WIDTH: usize = 2;

/// What the open prompt is collecting a name for.
#[derive(Debug)]
pub enum Pending {
    CreateFile,
    CreateDirectory,
    /// Renaming the entry at this path, which is remembered because the
    /// selection may have moved by the time the name is submitted.
    Rename(PathBuf),
}

/// A pending deletion. Held rather than acted on immediately so the question
/// can be shown and answered.
#[derive(Debug)]
pub struct Confirm {
    pub message: String,
    pub path: PathBuf,
    /// Directories are removed with their contents; files never need this.
    pub recursive: bool,
}

/// What a [`Confirm`] says.
pub struct ConfirmView {
    pub message: Seq<char>,
    pub path: PathBuf,
    pub recursive: bool,
}

impl View for Confirm {
    type V = ConfirmView;

    open spec fn view(&self) -> ConfirmView {
        ConfirmView { message: self.message@, path: self.path, recursive: self.recursive }
    }
}

/// What is to be done about an event.
#[derive(Debug)]
pub enum Outcome {
    /// Let the layer underneath have it.
    Ignored,
    /// Nothing: it has been dealt with.
    Consumed,
    /// Take the tree away.
    Close,
    /// Take the tree away and open this file.
    Open(PathBuf),
    /// Open a prompt with this label and this text in it.
    Ask { label: &'static str, line: String },
    /// Hand the event to the prompt.
    Edit,
    /// Show this error.
    Report(String),
    /// Do this outside the tree.
    Run(Task),
}

/// What an [`Outcome`] says, with paths as texts.
pub enum OutcomeView {
    Ignored,
    Consumed,
    Close,
    Open(Seq<u8>),
    Ask { label: Seq<char>, line: Seq<char> },
    Edit,
    Report(Seq<char>),
    Run(TaskView),
}

impl View for Outcome {
    type V = OutcomeView;

    open spec fn view(&self) -> OutcomeView {
        match self {
            Outcome::Ignored => OutcomeView::Ignored,
            Outcome::Consumed => OutcomeView::Consumed,
            Outcome::Close => OutcomeView::Close,
            Outcome::Open(path) => OutcomeView::Open(crate::path::buf_text(path)),
            Outcome::Ask { label, line } => OutcomeView::Ask { label: label@, line: line@ },
            Outcome::Edit => OutcomeView::Edit,
            Outcome::Report(message) => OutcomeView::Report(message@),
            Outcome::Run(task) => OutcomeView::Run(task@),
        }
    }
}

/// The style a row is drawn in.
#[derive(Debug, Clone, Copy, PartialEq, Eq, Structural)]
pub enum RowStyle {
    Text,
    Directory,
    /// The row under the cursor, whatever it is. All of its width is painted.
    Selected,
}

/// One row as it is drawn.
#[derive(Debug)]
pub struct Line {
    /// The row of the tree that this is.
    pub index: usize,
    /// Where the marker starts.
    pub x: u32,
    pub y: u32,
    /// The columns there are for the row.
    pub width: usize,
    pub marker: &'static str,
    /// Where the icon starts, for which there are [`ICON_WIDTH`] columns.
    pub icon_x: u32,
    /// Where the name starts.
    pub name_x: u32,
    pub name: String,
    /// The columns there are for the name.
    pub name_width: usize,
    pub style: RowStyle,
}

/// A modal file tree. `D` is the editor's document, of which the tree keeps
/// previews.
#[derive(Debug)]
pub struct FileTree<D> {
    tree: Tree,
    /// First visible row. Kept here rather than in the model because it only
    /// means anything against a viewport height, which is known at render time.
    offset: usize,
    /// Rows the last render could fit, for page movement.
    height: usize,
    /// Read once at open: directories opened later use the same rule as the
    /// root listing, so the tree stays internally consistent even if the
    /// setting changes mid-session.
    show_hidden: bool,
    /// What an open prompt will do once submitted.
    prompt: Option<Pending>,
    /// A destructive action waiting on a yes.
    confirm: Option<Confirm>,
    /// Files already read for the preview pane. Filled as the cursor moves,
    /// and thrown away with the tree.
    previews: Previews<D>,
    /// Where the preview pane sits, or `None` while it is hidden, which is how
    /// the tree opens.
    preview: Option<PreviewLayout>,
}

/// What a file tree is, apart from how it is stored.
#[verifier::ext_equal]
pub struct FileTreeView<D> {
    pub tree: TreeView,
    pub offset: int,
    pub height: int,
    pub show_hidden: bool,
    pub prompt: Option<Pending>,
    pub confirm: Option<ConfirmView>,
    pub previews: Map<Seq<Part>, Cached<D>>,
    pub preview: Option<PreviewLayout>,
}

impl<D> View for FileTree<D> {
    type V = FileTreeView<D>;

    closed spec fn view(&self) -> FileTreeView<D> {
        FileTreeView {
            tree: self.tree@,
            offset: self.offset as int,
            height: self.height as int,
            show_hidden: self.show_hidden,
            prompt: self.prompt,
            confirm: match self.confirm {
                Some(confirm) => Some(confirm@),
                None => None,
            },
            previews: self.previews@,
            preview: self.preview,
        }
    }
}

/// The label of the prompt.
pub open spec fn label_of(pending: Pending) -> Seq<char> {
    match pending {
        Pending::CreateFile => "create file: "@,
        Pending::CreateDirectory => "create directory: "@,
        Pending::Rename(_) => "rename to: "@,
    }
}

/// The text that the prompt starts with. A rename is an edit of the current
/// name rather than typing it out again.
pub open spec fn line_of(pending: Pending) -> Seq<char> {
    match pending {
        Pending::Rename(path) => crate::path::shown_text(crate::path::buf_text(&path)),
        _ => Seq::empty(),
    }
}

/// The question to ask before deleting an entry. For a directory it says
/// plainly that this takes the contents too.
pub open spec fn question_for(entry: Entry) -> Seq<char> {
    let name = crate::path::shown_text(crate::path::buf_text(&entry.path));
    if entry.is_dir {
        "delete "@ + name + "/ and everything in it? (y/N) "@
    } else {
        "delete "@ + name + "? (y/N) "@
    }
}

/// The first visible row that keeps the cursor on screen with the least
/// scrolling, and no more room below the last row than there has to be.
pub open spec fn scrolled(offset: int, len: int, selected: int, height: int) -> int {
    if height == 0 {
        offset
    } else {
        let kept = crate::layout::least(offset, crate::layout::less(len, height));
        if selected < kept {
            selected
        } else if selected >= kept + height {
            selected + 1 - height
        } else {
            kept
        }
    }
}

/// The marker in front of a row.
pub open spec fn marker_of(entry: Entry) -> Seq<char> {
    if !entry.is_dir {
        "  "@
    } else if entry.expanded {
        "▾ "@
    } else {
        "▸ "@
    }
}

/// The name that a row shows.
pub open spec fn label_text(entry: Entry) -> Seq<char> {
    let name = crate::path::shown_text(crate::path::buf_text(&entry.path));
    if entry.is_dir {
        name + "/"@
    } else {
        name
    }
}

/// How far a row is indented. Screen columns are 16 bits wide.
pub open spec fn indent_of(entry: Entry) -> int {
    (entry.depth * INDENT) % 0x1_0000
}

impl<D> FileTreeView<D> {
    /// The tree is in order, and at most one of the prompt and the confirmation
    /// is open.
    pub open spec fn wf(self) -> bool {
        &&& self.tree.wf()
        &&& 0 <= self.offset
        &&& 0 <= self.height
        &&& !(self.prompt is Some && self.confirm is Some)
    }

    /// The entry under the cursor.
    pub open spec fn selected_entry(self) -> Option<Entry> {
        if self.tree.rows.len() > 0 {
            Some(self.tree.rows[self.tree.selected])
        } else {
            None
        }
    }

    /// Rows a page jump covers: half a screen.
    pub open spec fn page(self) -> int {
        if self.height / 2 > 1 {
            self.height / 2
        } else {
            1
        }
    }

    /// The directory that the row at `index` lives in, and its row.
    pub open spec fn containing_directory(self, index: int) -> (Seq<u8>, Option<int>) {
        match self.tree.parent_of(index) {
            Some(parent) => (crate::path::buf_text(&self.tree.rows[parent].path), Some(parent)),
            None => (crate::path::buf_text(&self.tree.root), None),
        }
    }

    /// The directory that new entries land in, and its row.
    pub open spec fn target_directory(self) -> (Seq<u8>, Option<int>) {
        match self.selected_entry() {
            Some(entry) => if entry.is_dir {
                (crate::path::buf_text(&entry.path), Some(self.tree.selected))
            } else {
                self.containing_directory(self.tree.selected)
            },
            None => (crate::path::buf_text(&self.tree.root), None),
        }
    }

    /// The directory that a path lives in, and its row.
    pub open spec fn home_of(self, path: Seq<u8>) -> (Seq<u8>, Option<int>) {
        match self.tree.position(path) {
            Some(index) => self.containing_directory(index),
            None => self.target_directory(),
        }
    }

    /// Starts collecting a name.
    pub open spec fn ask(self, pending: Pending) -> (FileTreeView<D>, OutcomeView) {
        (
            FileTreeView { prompt: Some(pending), ..self },
            OutcomeView::Ask { label: label_of(pending), line: line_of(pending) },
        )
    }

    /// Asks before deleting the entry under the cursor.
    pub open spec fn ask_delete(self) -> FileTreeView<D> {
        match self.selected_entry() {
            Some(entry) => FileTreeView {
                confirm: Some(
                    ConfirmView {
                        message: question_for(entry),
                        path: entry.path,
                        recursive: entry.is_dir,
                    },
                ),
                ..self
            },
            None => self,
        }
    }

    /// Opens the entry under the cursor.
    pub open spec fn activate(self) -> (FileTreeView<D>, OutcomeView) {
        match self.selected_entry() {
            None => (self, OutcomeView::Consumed),
            Some(entry) => {
                let path = crate::path::buf_text(&entry.path);
                let index = self.tree.selected;
                if !entry.is_dir {
                    (self, OutcomeView::Open(path))
                } else if entry.expanded {
                    (
                        FileTreeView { tree: self.tree.collapse(index), ..self },
                        OutcomeView::Consumed,
                    )
                } else {
                    (self, OutcomeView::Run(TaskView::Expand { index, path }))
                }
            },
        }
    }

    /// Shuts the directory under the cursor, or steps out to its parent.
    pub open spec fn collapse_or_leave(self) -> FileTreeView<D> {
        match self.selected_entry() {
            None => self,
            Some(entry) => if entry.is_dir && entry.expanded {
                FileTreeView { tree: self.tree.collapse(self.tree.selected), ..self }
            } else {
                match self.tree.parent_of(self.tree.selected) {
                    Some(parent) => FileTreeView { tree: self.tree.select(parent), ..self },
                    None => self,
                }
            },
        }
    }

    /// The first task of a creation.
    pub open spec fn create(self, name: Seq<char>, directory_wanted: bool) -> TaskView {
        let (directory, index) = self.target_directory();
        TaskView::CheckCreate(
            CreationView {
                directory,
                index,
                path: crate::path::joined_text(directory, name),
                directory_wanted,
            },
        )
    }

    /// What a rename comes to at first.
    pub open spec fn rename(self, from: Seq<u8>, name: Seq<char>) -> OutcomeView {
        match crate::path::parent_text(from) {
            None => OutcomeView::Report("Cannot rename the filesystem root"@),
            Some(parent) => {
                let to = crate::path::joined_text(parent, name);
                if crate::path::same_parts(to, from) {
                    OutcomeView::Consumed
                } else {
                    OutcomeView::Run(TaskView::CheckRename(RenamingView { from, to }))
                }
            },
        }
    }

    /// The task of a deletion.
    pub open spec fn delete(self, path: Seq<u8>, recursive: bool) -> TaskView {
        let (directory, index) = self.home_of(path);
        TaskView::Delete(DeletionView { directory, index, path, recursive })
    }

    /// What a command does.
    pub open spec fn run(self, command: Command) -> (FileTreeView<D>, OutcomeView) {
        match command {
            Command::Close => (self, OutcomeView::Close),
            Command::Next => self.moved(self.tree.select_next()),
            Command::Previous => self.moved(self.tree.select_prev()),
            Command::First => self.moved(self.tree.select(0)),
            Command::Last => self.moved(self.tree.select(self.tree.rows.len() - 1)),
            Command::PageDown => self.moved(self.tree.select_by(self.page())),
            Command::PageUp => self.moved(self.tree.select_by(-self.page())),
            Command::Activate => self.activate(),
            Command::Leave => (self.collapse_or_leave(), OutcomeView::Consumed),
            Command::CreateFile => self.ask(Pending::CreateFile),
            Command::CreateDirectory => self.ask(Pending::CreateDirectory),
            Command::Rename => match self.selected_entry() {
                Some(entry) => self.ask(Pending::Rename(entry.path)),
                None => (self, OutcomeView::Consumed),
            },
            Command::Delete => (self.ask_delete(), OutcomeView::Consumed),
            Command::Swallow => (self, OutcomeView::Consumed),
        }
    }

    /// The cursor moved.
    pub open spec fn moved(self, tree: TreeView) -> (FileTreeView<D>, OutcomeView) {
        (FileTreeView { tree, ..self }, OutcomeView::Consumed)
    }

    /// What an event does while a deletion waits on a yes.
    pub open spec fn handle_confirm_event(self, event: Event) -> (FileTreeView<D>, OutcomeView) {
        match event {
            Event::Other => (self, OutcomeView::Consumed),
            Event::Key(key) => {
                let answered = FileTreeView { confirm: None, ..self };
                match self.confirm {
                    Some(confirm) => if crate::command::is_yes(key) {
                        (
                            answered,
                            OutcomeView::Run(
                                self.delete(
                                    crate::path::buf_text(&confirm.path),
                                    confirm.recursive,
                                ),
                            ),
                        )
                    } else {
                        (answered, OutcomeView::Consumed)
                    },
                    None => (answered, OutcomeView::Consumed),
                }
            },
        }
    }

    /// What an event does while a prompt with `line` in it is open.
    pub open spec fn handle_prompt_event(self, event: Event, line: Seq<char>) -> (
        FileTreeView<D>,
        OutcomeView,
    ) {
        match event {
            Event::Other => (self, OutcomeView::Consumed),
            Event::Key(key) => {
                let closed = FileTreeView { prompt: None, ..self };
                let name = crate::text::trimmed(line);
                if crate::command::is_submit(key) {
                    match self.prompt {
                        Some(pending) => if name.len() == 0 {
                            (closed, OutcomeView::Consumed)
                        } else {
                            match pending {
                                Pending::CreateFile => (
                                    closed,
                                    OutcomeView::Run(self.create(name, false)),
                                ),
                                Pending::CreateDirectory => (
                                    closed,
                                    OutcomeView::Run(self.create(name, true)),
                                ),
                                Pending::Rename(from) => (
                                    closed,
                                    self.rename(crate::path::buf_text(&from), name),
                                ),
                            }
                        },
                        None => (closed, OutcomeView::Consumed),
                    }
                } else if crate::command::is_cancel(key) {
                    (closed, OutcomeView::Consumed)
                } else {
                    (self, OutcomeView::Edit)
                }
            },
        }
    }

    /// What an event does.
    pub open spec fn handle_event(self, event: Event, line: Seq<char>) -> (
        FileTreeView<D>,
        OutcomeView,
    ) {
        if self.confirm is Some {
            self.handle_confirm_event(event)
        } else if self.prompt is Some {
            self.handle_prompt_event(event, line)
        } else {
            match event {
                Event::Other => (self, OutcomeView::Ignored),
                Event::Key(key) => self.run(crate::command::command_of(key)),
            }
        }
    }

    /// The tree with nothing kept for a path or for anything below it.
    pub open spec fn forget(self, path: Seq<u8>) -> FileTreeView<D> {
        FileTreeView {
            previews: crate::preview::without_below(self.previews, crate::path::parts_of(path)),
            ..self
        }
    }

    /// The tree with a directory shown as it was read.
    pub open spec fn refresh(self, index: Option<int>, found: Seq<Found>) -> FileTreeView<D> {
        let children = crate::listing::listing(found, self.show_hidden);
        FileTreeView {
            tree: match index {
                Some(index) => self.tree.collapse(index).expand(index, children),
                None => self.tree.reset(children),
            },
            ..self
        }
    }

    /// The tree with the cursor on a path, where that is visible.
    pub open spec fn select_path(self, path: Option<Seq<u8>>) -> FileTreeView<D> {
        match path {
            Some(path) => FileTreeView { tree: self.tree.select_path(path), ..self },
            None => self,
        }
    }

    /// A step towards showing a path.
    pub open spec fn reveal_path(self, target: Seq<u8>) -> (FileTreeView<D>, StepView) {
        match self.tree.next_above(target) {
            Some(index) => (
                self,
                StepView::Next(
                    TaskView::Reveal {
                        index,
                        directory: crate::path::buf_text(&self.tree.rows[index].path),
                        target,
                    },
                ),
            ),
            None => (self.select_path(Some(target)), StepView::Finished),
        }
    }

    /// What follows from a reply. A reply to another question than the task's
    /// changes nothing.
    pub open spec fn advance(self, task: TaskView, reply: ReplyView) -> (FileTreeView<D>, StepView) {
        match task {
            TaskView::CheckCreate(creation) => match reply {
                ReplyView::Exists(true) => (
                    self,
                    StepView::Report(crate::task::taken_message(creation.path)),
                ),
                ReplyView::Exists(false) => (self, StepView::Next(TaskView::Create(creation))),
                _ => (self, StepView::Finished),
            },
            TaskView::Create(creation) => match reply {
                ReplyView::Done => (
                    self.forget(creation.path),
                    StepView::Next(
                        TaskView::Refresh(
                            RefreshingView {
                                directory: creation.directory,
                                index: creation.index,
                                select: Some(creation.path),
                            },
                        ),
                    ),
                ),
                ReplyView::Failed(error) => (
                    self,
                    StepView::Report(
                        crate::task::failure_message("create"@, creation.path, error),
                    ),
                ),
                _ => (self, StepView::Finished),
            },
            TaskView::CheckRename(renaming) => match reply {
                ReplyView::Exists(true) => (
                    self,
                    StepView::Report(crate::task::taken_message(renaming.to)),
                ),
                ReplyView::Exists(false) => (self, StepView::Next(TaskView::Rename(renaming))),
                _ => (self, StepView::Finished),
            },
            TaskView::Rename(renaming) => match reply {
                ReplyView::Done => {
                    let (directory, index) = self.home_of(renaming.from);
                    (
                        self.forget(renaming.from).forget(renaming.to),
                        StepView::Next(
                            TaskView::Refresh(
                                RefreshingView { directory, index, select: Some(renaming.to) },
                            ),
                        ),
                    )
                },
                ReplyView::Failed(error) => (
                    self,
                    StepView::Report(
                        crate::task::failure_message("rename"@, renaming.from, error),
                    ),
                ),
                _ => (self, StepView::Finished),
            },
            TaskView::Delete(deletion) => match reply {
                ReplyView::Done => (
                    self.forget(deletion.path),
                    StepView::Next(
                        TaskView::Refresh(
                            RefreshingView {
                                directory: deletion.directory,
                                index: deletion.index,
                                select: None,
                            },
                        ),
                    ),
                ),
                ReplyView::Failed(error) => (
                    self,
                    StepView::Report(
                        crate::task::failure_message("delete"@, deletion.path, error),
                    ),
                ),
                _ => (self, StepView::Finished),
            },
            TaskView::Refresh(refreshing) => match reply {
                ReplyView::Listing(found) => (
                    self.refresh(refreshing.index, found).select_path(refreshing.select),
                    StepView::Finished,
                ),
                ReplyView::Failed(error) => (
                    self.select_path(refreshing.select),
                    StepView::Report(
                        crate::task::failure_message("read"@, refreshing.directory, error),
                    ),
                ),
                _ => (self, StepView::Finished),
            },
            TaskView::Expand { index, path } => match reply {
                ReplyView::Listing(found) => (
                    self.opened(index, found),
                    StepView::Finished,
                ),
                ReplyView::Failed(error) => (
                    self,
                    StepView::Report(crate::task::failure_message("read"@, path, error)),
                ),
                _ => (self, StepView::Finished),
            },
            TaskView::Reveal { index, directory, target } => match reply {
                ReplyView::Listing(found) => self.opened(index, found).reveal_path(target),
                _ => (self, StepView::Finished),
            },
        }
    }

    /// The tree with a directory opened onto what was found in it.
    pub open spec fn opened(self, index: int, found: Seq<Found>) -> FileTreeView<D> {
        FileTreeView {
            tree: self.tree.expand(index, crate::listing::listing(found, self.show_hidden)),
            ..self
        }
    }

    /// The area that the rows get: the prompt and the confirmation share the
    /// bottom row.
    pub open spec fn list_area(self, inner: Rect) -> Rect {
        if self.prompt is Some || self.confirm is Some {
            inner.clipped_bottom(1)
        } else {
            inner
        }
    }

    /// The tree scrolled so as to be drawn in an area.
    pub open spec fn scroll_into(self, inner: Rect) -> FileTreeView<D> {
        let height = self.list_area(inner).height as int;
        FileTreeView {
            height,
            offset: scrolled(self.offset, self.tree.rows.len() as int, self.tree.selected, height),
            ..self
        }
    }

    /// How many rows are drawn.
    pub open spec fn drawn_rows(self) -> int {
        crate::layout::least(
            self.height,
            crate::layout::less(self.tree.rows.len() as int, self.offset),
        )
    }

    /// The row that stands in line `row` of the list area is drawn like this.
    pub open spec fn is_line(self, line: Line, list: Rect, row: int) -> bool {
        let index = self.offset + row;
        let entry = self.tree.rows[index];
        let width = crate::layout::less(list.width as int, indent_of(entry));
        &&& line.index == index
        &&& line.x == list.x + indent_of(entry)
        &&& line.y == list.y + row
        &&& line.width == width
        &&& line.marker@ == marker_of(entry)
        &&& line.icon_x == line.x + MARKER_WIDTH
        &&& line.name_x == line.x + MARKER_WIDTH + ICON_WIDTH
        &&& line.name@ == label_text(entry)
        &&& line.name_width == crate::layout::less(width, MARKER_WIDTH + ICON_WIDTH)
        &&& line.style == (if index == self.tree.selected {
            RowStyle::Selected
        } else if entry.is_dir {
            RowStyle::Directory
        } else {
            RowStyle::Text
        })
    }
}

impl<D> FileTree<D> {
    pub const ID: &'static str = "file-tree";

    /// The tree is in order, at most one of the prompt and the confirmation is
    /// open, and nothing is cached twice.
    pub closed spec fn wf(&self) -> bool {
        &&& self@.wf()
        &&& self.previews.wf()
    }

    /// What holds of a file tree holds of what it is, and its rows can be
    /// counted.
    pub proof fn lemma_wf(&self)
        requires
            self.wf(),
        ensures
            self@.wf(),
            self@.tree.rows.len() <= usize::MAX,
    {
        self.tree.lemma_len();
    }

    /// Opens the directory `root`, in which `found` was found. `hidden` is the
    /// setting that reads as "hide hidden files".
    pub fn new(root: PathBuf, found: Vec<Found>, hidden: bool) -> (tree: Self)
        ensures
            tree.wf(),
            tree@ == (FileTreeView::<D> {
                tree: TreeView {
                    root,
                    rows: crate::model::child_rows(
                        crate::listing::listing(found@, !hidden),
                        0,
                    ),
                    selected: 0,
                },
                offset: 0,
                height: 0,
                show_hidden: !hidden,
                prompt: None,
                confirm: None,
                previews: Map::empty(),
                preview: None,
            }),
    {
        let show_hidden: bool = !hidden;
        let children = read_dir(found, show_hidden);
        FileTree {
            tree: Tree::new(root, children),
            offset: 0,
            height: 0,
            show_hidden,
            prompt: None,
            confirm: None,
            previews: Previews::new(),
            preview: None,
        }
    }

    /// The rows.
    pub fn tree(&self) -> (tree: &Tree)
        requires
            self.wf(),
        ensures
            tree.wf(),
            tree@ == self@.tree,
    {
        &self.tree
    }

    /// What the open prompt is collecting a name for.
    pub fn pending(&self) -> (pending: Option<&Pending>)
        ensures
            match pending {
                Some(pending) => self@.prompt == Some(*pending),
                None => self@.prompt is None,
            },
    {
        self.prompt.as_ref()
    }

    /// The deletion that waits on a yes.
    pub fn confirm(&self) -> (confirm: Option<&Confirm>)
        ensures
            match confirm {
                Some(confirm) => self@.confirm == Some(confirm@),
                None => self@.confirm is None,
            },
    {
        self.confirm.as_ref()
    }

    /// Rows a page jump covers: half a screen.
    fn page(&self) -> (rows: isize)
        ensures
            rows == self@.page(),
            rows >= 1,
    {
        let half: usize = self.height / 2;
        if half > 1 {
            half as isize
        } else {
            1
        }
    }

    /// Starts collecting a name for `pending`.
    fn ask(&mut self, pending: Pending) -> (outcome: Outcome)
        requires
            old(self).wf(),
            old(self)@.confirm is None,
        ensures
            final(self).wf(),
            (final(self)@, outcome@) == old(self)@.ask(pending),
    {
        let (label, line) = match &pending {
            Pending::CreateFile => ("create file: ", String::new()),
            Pending::CreateDirectory => ("create directory: ", String::new()),
            Pending::Rename(path) => ("rename to: ", file_name(path.as_path())),
        };
        self.prompt = Some(pending);
        Outcome::Ask { label, line }
    }

    /// Asks before deleting the selected row.
    fn ask_delete(&mut self)
        requires
            old(self).wf(),
            old(self)@.prompt is None,
        ensures
            final(self).wf(),
            final(self)@ == old(self)@.ask_delete(),
    {
        let (path, is_dir) = match self.tree.selected_entry() {
            Some(entry) => (entry.path.clone(), entry.is_dir),
            None => {
                return ;
            },
        };
        let mut message = "delete ".to_owned();
        message.append(file_name(path.as_path()).as_str());
        if is_dir {
            // Say plainly that this takes the contents too: the row on screen
            // may well be collapsed, hiding everything about to be destroyed.
            message.append("/ and everything in it? (y/N) ");
        } else {
            message.append("? (y/N) ");
        }
        self.confirm = Some(Confirm { message, path, recursive: is_dir });
    }

    /// The directory new entries land in, and the row to re-read afterwards.
    /// `None` means the root, which has no row of its own.
    pub fn target_directory(&self) -> (target: (PathBuf, Option<usize>))
        requires
            self.wf(),
        ensures
            (crate::path::buf_text(&target.0), crate::task::row_of(target.1))
                == self@.target_directory(),
    {
        let index: usize = self.tree.selected();
        match self.tree.selected_entry() {
            Some(entry) => {
                if entry.is_dir {
                    (entry.path.clone(), Some(index))
                } else {
                    self.containing_directory(index)
                }
            },
            None => (self.tree.root().to_path_buf(), None),
        }
    }

    /// The directory the row at `index` lives in, and the row to re-read after
    /// changing it. `None` means the root, which has no row of its own.
    pub fn containing_directory(&self, index: usize) -> (home: (PathBuf, Option<usize>))
        requires
            self.wf(),
        ensures
            (crate::path::buf_text(&home.0), crate::task::row_of(home.1))
                == self@.containing_directory(index as int),
    {
        match self.tree.parent_of(index) {
            Some(parent) => {
                proof {
                    let view = self.tree@;
                    crate::model::lemma_last_shallower(
                        view.rows,
                        index as int,
                        view.rows[index as int].depth as int,
                    );
                }
                match self.tree.get(parent) {
                    Some(entry) => (entry.path.clone(), Some(parent)),
                    None => (self.tree.root().to_path_buf(), None),
                }
            },
            None => (self.tree.root().to_path_buf(), None),
        }
    }

    /// The directory that `path` lives in, and the row to re-read after
    /// changing it.
    fn home_of(&self, path: &Path) -> (home: (PathBuf, Option<usize>))
        requires
            self.wf(),
        ensures
            (crate::path::buf_text(&home.0), crate::task::row_of(home.1)) == self@.home_of(
                crate::path::path_text(path),
            ),
    {
        match self.tree.position(path) {
            Some(index) => self.containing_directory(index),
            None => self.target_directory(),
        }
    }

    /// Opens the selected row: directories toggle, files load into the editor
    /// and close the tree.
    fn activate(&mut self) -> (outcome: Outcome)
        requires
            old(self).wf(),
        ensures
            final(self).wf(),
            (final(self)@, outcome@) == old(self)@.activate(),
    {
        let (path, is_dir, expanded) = match self.tree.selected_entry() {
            Some(entry) => (entry.path.clone(), entry.is_dir, entry.expanded),
            None => {
                return Outcome::Consumed;
            },
        };
        let index: usize = self.tree.selected();
        if !is_dir {
            return Outcome::Open(path);
        }
        if expanded {
            self.tree.collapse(index);
            Outcome::Consumed
        } else {
            Outcome::Run(Task::Expand(Expansion { index, path }))
        }
    }

    /// Shuts the selected directory, or steps out to the one containing it.
    /// Repeated presses walk back up the tree, which is what makes the key
    /// useful on a file as well as on a directory.
    fn collapse_or_leave(&mut self)
        requires
            old(self).wf(),
        ensures
            final(self).wf(),
            final(self)@ == old(self)@.collapse_or_leave(),
    {
        let index: usize = self.tree.selected();
        let open: bool = match self.tree.get(index) {
            Some(entry) => entry.is_dir && entry.expanded,
            None => {
                return ;
            },
        };
        if open {
            self.tree.collapse(index);
        } else if let Some(parent) = self.tree.parent_of(index) {
            self.tree.select(parent);
        }
    }

    /// The first task of creating `name` in the target directory. A name may
    /// carry directories of its own.
    ///
    /// Creating a file would truncate whatever is already there, so the first
    /// task is to find out: typing a name that happens to exist must never
    /// silently empty it.
    pub fn create(&self, name: &str, directory_wanted: bool) -> (task: Task)
        requires
            self.wf(),
        ensures
            task@ == self@.create(name@, directory_wanted),
    {
        let (directory, index) = self.target_directory();
        let path = join(directory.as_path(), name);
        Task::CheckCreate(Creation { directory, index, path, directory_wanted })
    }

    /// What renaming the entry at `from` comes to. It may also move it: a name
    /// containing separators is joined onto the containing directory.
    pub fn rename(&self, from: PathBuf, name: &str) -> (outcome: Outcome)
        ensures
            outcome@ == self@.rename(crate::path::buf_text(&from), name@),
    {
        let to = match from.as_path().parent() {
            Some(parent) => join(parent, name),
            None => {
                return Outcome::Report("Cannot rename the filesystem root".to_owned());
            },
        };
        if same_path(to.as_path(), from.as_path()) {
            return Outcome::Consumed;
        }
        Outcome::Run(Task::CheckRename(Renaming { from, to }))
    }

    /// The task of removing an entry. Where to re-read is worked out now,
    /// before the row disappears.
    pub fn delete(&self, path: PathBuf, recursive: bool) -> (task: Task)
        requires
            self.wf(),
        ensures
            task@ == self@.delete(crate::path::buf_text(&path), recursive),
    {
        let (directory, index) = self.home_of(path.as_path());
        Task::Delete(Deletion { directory, index, path, recursive })
    }

    /// Opens a rename prompt for the selected row.
    fn ask_rename(&mut self) -> (outcome: Outcome)
        requires
            old(self).wf(),
            old(self)@.confirm is None,
        ensures
            final(self).wf(),
            (final(self)@, outcome@) == old(self)@.run(Command::Rename),
    {
        let path = match self.tree.selected_entry() {
            Some(entry) => entry.path.clone(),
            None => {
                return Outcome::Consumed;
            },
        };
        self.ask(Pending::Rename(path))
    }

    /// Only `y` goes through. Every other key cancels, rather than only `Esc`:
    /// a keystroke landing here by accident must not be able to delete a file.
    fn handle_confirm_event(&mut self, event: &Event) -> (outcome: Outcome)
        requires
            old(self).wf(),
        ensures
            final(self).wf(),
            (final(self)@, outcome@) == old(self)@.handle_confirm_event(*event),
    {
        let key = match event {
            Event::Key(key) => *key,
            Event::Other => {
                return Outcome::Consumed;
            },
        };
        match self.confirm.take() {
            Some(confirm) => {
                if answers_yes(key) {
                    let task = self.delete(confirm.path, confirm.recursive);
                    Outcome::Run(task)
                } else {
                    Outcome::Consumed
                }
            },
            None => Outcome::Consumed,
        }
    }

    /// While a prompt is open it owns the keyboard, so the tree's own bindings
    /// stay out of the way of typing a filename. `line` is what has been typed.
    fn handle_prompt_event(&mut self, event: &Event, line: &str) -> (outcome: Outcome)
        requires
            old(self).wf(),
        ensures
            final(self).wf(),
            (final(self)@, outcome@) == old(self)@.handle_prompt_event(*event, line@),
    {
        let key = match event {
            Event::Key(key) => *key,
            Event::Other => {
                return Outcome::Consumed;
            },
        };
        if submits(key) {
            match self.prompt.take() {
                Some(pending) => {
                    let name = trim(line);
                    if name.is_empty() {
                        return Outcome::Consumed;
                    }
                    match pending {
                        Pending::CreateFile => Outcome::Run(self.create(name, false)),
                        Pending::CreateDirectory => Outcome::Run(self.create(name, true)),
                        Pending::Rename(from) => self.rename(from, name),
                    }
                },
                None => Outcome::Consumed,
            }
        } else if cancels(key) {
            self.prompt = None;
            Outcome::Consumed
        } else {
            Outcome::Edit
        }
    }

    /// What is to be done about an event. `line` is the text in the prompt,
    /// while one is open.
    pub fn handle_event(&mut self, event: &Event, line: &str) -> (outcome: Outcome)
        requires
            old(self).wf(),
        ensures
            final(self).wf(),
            (final(self)@, outcome@) == old(self)@.handle_event(*event, line@),
    {
        if self.confirm.is_some() {
            return self.handle_confirm_event(event);
        }
        if self.prompt.is_some() {
            return self.handle_prompt_event(event, line);
        }
        let key = match event {
            Event::Key(key) => *key,
            Event::Other => {
                return Outcome::Ignored;
            },
        };
        match command(key) {
            Command::Close => {
                return Outcome::Close;
            },
            Command::Next => self.tree.select_next(),
            Command::Previous => self.tree.select_prev(),
            Command::First => self.tree.select_first(),
            Command::Last => self.tree.select_last(),
            Command::PageDown => {
                let rows: isize = self.page();
                self.tree.select_by(rows);
            },
            Command::PageUp => {
                let rows: isize = self.page();
                self.tree.select_by(-rows);
            },
            Command::Activate => {
                return self.activate();
            },
            Command::Leave => self.collapse_or_leave(),
            Command::CreateFile => {
                return self.ask(Pending::CreateFile);
            },
            Command::CreateDirectory => {
                return self.ask(Pending::CreateDirectory);
            },
            Command::Rename => {
                return self.ask_rename();
            },
            Command::Delete => self.ask_delete(),
            Command::Swallow => {},
        }
        Outcome::Consumed
    }

    /// Takes over a directory as it was read after its contents changed.
    fn refresh(&mut self, index: Option<usize>, found: Vec<Found>)
        requires
            old(self).wf(),
        ensures
            final(self).wf(),
            final(self)@ == old(self)@.refresh(crate::task::row_of(index), found@),
    {
        let children = read_dir(found, self.show_hidden);
        match index {
            Some(index) => {
                self.tree.collapse(index);
                self.tree.expand(index, children);
            },
            None => self.tree.reset(children),
        }
    }

    /// One step towards showing `path`: opening onto a file rather than at the
    /// root lets the reader start where they already are.
    pub fn reveal_path(&mut self, path: PathBuf) -> (step: Step)
        requires
            old(self).wf(),
        ensures
            final(self).wf(),
            (final(self)@, step@) == old(self)@.reveal_path(crate::path::buf_text(&path)),
    {
        proof {
            crate::model::lemma_first_row(
                self.tree@.rows,
                crate::model::shut_above(crate::path::buf_text(&path)),
                0,
            );
        }
        match self.tree.reveal_path(path.as_path()) {
            Some(index) => match self.tree.get(index) {
                Some(entry) => Step::Next(
                    Task::Reveal(
                        Revelation { index, directory: entry.path.clone(), target: path },
                    ),
                ),
                None => Step::Finished,
            },
            None => Step::Finished,
        }
    }

    /// What follows from the reply to a task.
    pub fn advance(&mut self, task: Task, reply: Reply) -> (step: Step)
        requires
            old(self).wf(),
        ensures
            final(self).wf(),
            (final(self)@, step@) == old(self)@.advance(task@, reply@),
    {
        match task {
            Task::CheckCreate(creation) => match reply {
                Reply::Exists(true) => Step::Report(taken(creation.path.as_path())),
                Reply::Exists(false) => Step::Next(Task::Create(creation)),
                _ => Step::Finished,
            },
            Task::Create(creation) => match reply {
                Reply::Done => {
                    self.previews.forget_below(creation.path.as_path());
                    Step::Next(
                        Task::Refresh(
                            Refreshing {
                                directory: creation.directory,
                                index: creation.index,
                                select: Some(creation.path),
                            },
                        ),
                    )
                },
                Reply::Failed(error) => Step::Report(
                    failure("create", creation.path.as_path(), error.as_str()),
                ),
                _ => Step::Finished,
            },
            Task::CheckRename(renaming) => match reply {
                Reply::Exists(true) => Step::Report(taken(renaming.to.as_path())),
                Reply::Exists(false) => Step::Next(Task::Rename(renaming)),
                _ => Step::Finished,
            },
            Task::Rename(renaming) => match reply {
                Reply::Done => {
                    // Re-read from the row the entry lived under, which is
                    // unchanged.
                    let (directory, index) = self.home_of(renaming.from.as_path());
                    self.previews.forget_below(renaming.from.as_path());
                    self.previews.forget_below(renaming.to.as_path());
                    Step::Next(
                        Task::Refresh(
                            Refreshing { directory, index, select: Some(renaming.to) },
                        ),
                    )
                },
                Reply::Failed(error) => Step::Report(
                    failure("rename", renaming.from.as_path(), error.as_str()),
                ),
                _ => Step::Finished,
            },
            Task::Delete(deletion) => match reply {
                Reply::Done => {
                    self.previews.forget_below(deletion.path.as_path());
                    Step::Next(
                        Task::Refresh(
                            Refreshing {
                                directory: deletion.directory,
                                index: deletion.index,
                                select: None,
                            },
                        ),
                    )
                },
                Reply::Failed(error) => Step::Report(
                    failure("delete", deletion.path.as_path(), error.as_str()),
                ),
                _ => Step::Finished,
            },
            Task::Refresh(refreshing) => {
                let step = match reply {
                    Reply::Listing(found) => {
                        self.refresh(refreshing.index, found);
                        Step::Finished
                    },
                    Reply::Failed(error) => Step::Report(
                        failure("read", refreshing.directory.as_path(), error.as_str()),
                    ),
                    _ => {
                        return Step::Finished;
                    },
                };
                if let Some(path) = &refreshing.select {
                    self.tree.select_path(path.as_path());
                }
                step
            },
            Task::Expand(expansion) => match reply {
                Reply::Listing(found) => {
                    let children = read_dir(found, self.show_hidden);
                    self.tree.expand(expansion.index, children);
                    Step::Finished
                },
                Reply::Failed(error) => Step::Report(
                    failure("read", expansion.path.as_path(), error.as_str()),
                ),
                _ => Step::Finished,
            },
            Task::Reveal(revelation) => match reply {
                Reply::Listing(found) => {
                    let children = read_dir(found, self.show_hidden);
                    self.tree.expand(revelation.index, children);
                    self.reveal_path(revelation.target)
                },
                _ => Step::Finished,
            },
        }
    }

    /// Drags the viewport just far enough to keep the cursor on screen.
    fn scroll_to_selection(&mut self)
        requires
            old(self).wf(),
        ensures
            final(self).wf(),
            final(self)@ == (FileTreeView {
                offset: scrolled(
                    old(self)@.offset,
                    old(self)@.tree.rows.len() as int,
                    old(self)@.tree.selected,
                    old(self)@.height,
                ),
                ..old(self)@
            }),
    {
        if self.height == 0 {
            return ;
        }
        // Clamp first, so a tree that shrank cannot leave the viewport parked
        // past the end, then correct for the cursor.
        let len: usize = self.tree.len();
        let last: usize = if len > self.height {
            len - self.height
        } else {
            0
        };
        if self.offset > last {
            self.offset = last;
        }
        let selected: usize = self.tree.selected();
        if selected < self.offset {
            self.offset = selected;
        } else if selected - self.offset >= self.height {
            self.offset = selected - self.height + 1;
        }
    }

    /// The row at `index` as it is drawn in line `row` of `list`.
    fn line(&self, list: Rect, index: usize, row: u16) -> (line: Line)
        requires
            self.wf(),
            index < self@.tree.rows.len(),
            index == self@.offset + row,
        ensures
            self@.is_line(line, list, row as int),
    {
        let entry = &self.tree.entries()[index];
        assert(entry.depth * INDENT == entry.depth * 2);
        let indent: u16 = ((entry.depth as u128 * INDENT as u128) % 0x1_0000) as u16;
        let marker = if !entry.is_dir {
            "  "
        } else if entry.expanded {
            "▾ "
        } else {
            "▸ "
        };
        let mut name = owned(entry.name());
        if entry.is_dir {
            name.append("/");
        }
        let style = if index == self.tree.selected() {
            RowStyle::Selected
        } else if entry.is_dir {
            RowStyle::Directory
        } else {
            RowStyle::Text
        };
        let width: usize = list.width.saturating_sub(indent) as usize;
        let x: u32 = list.x as u32 + indent as u32;
        Line {
            index,
            x,
            y: list.y as u32 + row as u32,
            width,
            marker,
            icon_x: x + MARKER_WIDTH as u32,
            name_x: x + (MARKER_WIDTH + ICON_WIDTH) as u32,
            name,
            name_width: width.saturating_sub(MARKER_WIDTH + ICON_WIDTH),
            style,
        }
    }

    /// Scrolls so that the cursor is on screen, and says how each row is drawn
    /// inside the border. The prompt and the confirmation share the bottom row;
    /// only one can be open at a time.
    pub fn render_list(&mut self, inner: Rect) -> (lines: Vec<Line>)
        requires
            old(self).wf(),
        ensures
            final(self).wf(),
            final(self)@ == old(self)@.scroll_into(inner),
            lines@.len() == final(self)@.drawn_rows(),
            forall|row: int|
                0 <= row < lines@.len() ==> final(self)@.is_line(
                    #[trigger] lines@[row],
                    final(self)@.list_area(inner),
                    row,
                ),
    {
        let list = if self.prompt.is_some() || self.confirm.is_some() {
            inner.clip_bottom(1)
        } else {
            inner
        };
        self.height = list.height as usize;
        self.scroll_to_selection();
        let ghost view = self@;
        let mut lines: Vec<Line> = Vec::new();
        let mut row: u16 = 0;
        let len: usize = self.tree.len();
        let offset: usize = self.offset;
        while row < list.height && offset < len && (row as usize) < len - offset
            invariant
                self.wf(),
                view == self@,
                view == old(self)@.scroll_into(inner),
                list == view.list_area(inner),
                view.height == list.height,
                offset == view.offset,
                len == view.tree.rows.len(),
                lines@.len() == row,
                row <= view.drawn_rows(),
                forall|done: int| 0 <= done < row ==> view.is_line(#[trigger] lines@[done], list, done),
            ensures
                row == view.drawn_rows(),
            decreases list.height - row,
        {
            lines.push(self.line(list, offset + row as usize, row));
            row = row + 1;
        }
        lines
    }

    /// The areas of the list and, where the preview is on and there is room for
    /// it, of the preview.
    pub fn render(&self, area: Rect) -> (panes: (Rect, Option<Rect>))
        ensures
            panes == (match self@.preview {
                Some(layout) => layout.shares(area),
                None => (area, None),
            }),
    {
        match self.preview {
            Some(layout) => layout.split(area),
            None => (area, None),
        }
    }

    /// What the preview pane shows: the file under the cursor. `open` is the
    /// document that the editor has open for it, if any. `None` in an empty
    /// tree, which leaves the pane blank.
    pub fn render_preview<'cache, 'editor>(&'cache self, open: Option<&'editor D>) -> (look: Option<
        Look<'cache, 'editor, D>,
    >)
        requires
            self.wf(),
        ensures
            match look {
                Some(look) => {
                    &&& self@.selected_entry() is Some
                    &&& look == crate::preview::look_at(
                        self@.previews,
                        crate::preview::cache_key(self@.selected_entry()->0.path),
                        open,
                    )
                },
                None => self@.selected_entry() is None,
            },
    {
        match self.tree.selected_entry() {
            Some(entry) => Some(self.previews.get(entry.path.as_path(), open)),
            None => None,
        }
    }

    /// The previews, to be filled and highlighted.
    pub fn previews_mut(&mut self) -> (previews: &mut Previews<D>)
        requires
            old(self).wf(),
        ensures
            previews.wf(),
            previews@ == old(self)@.previews,
            final(self)@ == (FileTreeView { previews: final(previews)@, ..old(self)@ }),
            final(previews).wf() ==> final(self).wf(),
    {
        &mut self.previews
    }

    /// Where the cursor goes: into the prompt, while one is open in the bottom
    /// row of `inner`.
    pub fn cursor(&self, inner: Rect) -> (cursor: Cursor)
        requires
            self@.prompt is Some ==> inner.y + inner.height <= u16::MAX + 1,
        ensures
            cursor == (if self@.prompt is Some {
                Cursor::Prompt(crate::layout::bottom_row(inner))
            } else {
                Cursor::Hidden
            }),
    {
        if self.prompt.is_some() {
            Cursor::Prompt(prompt_row(inner))
        } else {
            Cursor::Hidden
        }
    }

    pub fn id(&self) -> (id: Option<&'static str>)
        ensures
            id matches Some(id) && id@ == "file-tree"@,
    {
        Some(Self::ID)
    }
}

/// What became of the command line that asks for the tree.
#[derive(Debug, Clone, Copy, PartialEq, Eq, Structural)]
pub enum PromptEvent {
    /// It changed.
    Update,
    /// It was submitted.
    Validate,
    /// It was given up.
    Abort,
}

/// `:file-tree`, the entry point: whether to open the tree now. `exists` says
/// whether the workspace directory does; without it there is an error to show.
pub fn open(event: PromptEvent, exists: bool) -> (opens: Result<bool, &'static str>)
    ensures
        match opens {
            Ok(opens) => opens == (event == PromptEvent::Validate) && (opens ==> exists),
            Err(message) => {
                &&& event == PromptEvent::Validate && !exists
                &&& message@ == "workspace directory does not exist"@
            },
        },
{
    match event {
        PromptEvent::Validate => {
            if exists {
                Ok(true)
            } else {
                Err("workspace directory does not exist")
            }
        },
        _ => Ok(false),
    }
}

} // verus!
