//! What each key does to the tree, in terms of the rows and the cursor.

use vstd::prelude::*;

use crate::command::Command;
use crate::component::{FileTreeView, OutcomeView, Pending};
use crate::event::{Event, KeyCode, KeyEvent, Modifiers};
use crate::model::TreeView;
use crate::task::TaskView;

verus! {

/// Which keys ask for what. Every key that is not named here is swallowed.
pub proof fn law_commands(key: KeyEvent)
    ensures
        ({
            let plain = key.modifiers == Modifiers::Plain;
            let shift = key.modifiers == Modifiers::Shift;
            let control = key.modifiers == Modifiers::Control;
            let asked = crate::command::command_of(key);
            &&& asked == Command::Close <==> plain && key.code == KeyCode::Esc || control && key.code
                == KeyCode::Char('c')
            &&& asked == Command::Next <==> plain && (key.code == KeyCode::Char('j') || key.code
                == KeyCode::Down) || control && key.code == KeyCode::Char('n')
            &&& asked == Command::Previous <==> plain && (key.code == KeyCode::Char('k')
                || key.code == KeyCode::Up) || control && key.code == KeyCode::Char('p')
            &&& asked == Command::First <==> plain && key.code == KeyCode::Char('g')
            &&& asked == Command::Last <==> shift && key.code == KeyCode::Char('G')
            &&& asked == Command::PageDown <==> plain && key.code == KeyCode::PageDown || control
                && key.code == KeyCode::Char('d')
            &&& asked == Command::PageUp <==> plain && key.code == KeyCode::PageUp || control
                && key.code == KeyCode::Char('u')
            &&& asked == Command::Activate <==> plain && (key.code == KeyCode::Char('o')
                || key.code == KeyCode::Char('l') || key.code == KeyCode::Enter || key.code
                == KeyCode::Right)
            &&& asked == Command::Leave <==> plain && (key.code == KeyCode::Char('h') || key.code
                == KeyCode::Left)
            &&& asked == Command::CreateFile <==> plain && key.code == KeyCode::Char('a')
            &&& asked == Command::CreateDirectory <==> shift && key.code == KeyCode::Char('A')
            &&& asked == Command::Rename <==> plain && key.code == KeyCode::Char('r')
            &&& asked == Command::Delete <==> plain && key.code == KeyCode::Char('d')
        }),
{
}

/// `y` alone says yes, Enter alone submits, and Esc alone and `C-c` cancel.
pub proof fn law_answers(key: KeyEvent)
    ensures
        crate::command::is_yes(key) <==> key.modifiers == Modifiers::Plain && key.code
            == KeyCode::Char('y'),
        crate::command::is_submit(key) <==> key.modifiers == Modifiers::Plain && key.code
            == KeyCode::Enter,
        crate::command::is_cancel(key) <==> key.modifiers == Modifiers::Plain && key.code
            == KeyCode::Esc || key.modifiers == Modifiers::Control && key.code == KeyCode::Char(
            'c',
        ),
{
}

/// What is no key goes to the layer underneath, unless a prompt or a question is
/// open, and changes nothing either way.
pub proof fn law_no_key<D>(view: FileTreeView<D>, line: Seq<char>)
    ensures
        view.handle_event(Event::Other, line).0 == view,
        view.prompt is None && view.confirm is None ==> view.handle_event(Event::Other, line).1
            is Ignored,
        view.prompt is Some || view.confirm is Some ==> view.handle_event(Event::Other, line).1
            is Consumed,
{
}

/// The keys that move change the cursor and nothing else: `j`, Down and `C-n`
/// one row down and from the last to the first, `k`, Up and `C-p` the other way
/// round, `g` to the first row and `G` to the last.
pub proof fn law_moving_keys<D>(view: FileTreeView<D>, key: KeyEvent, line: Seq<char>)
    requires
        view.prompt is None,
        view.confirm is None,
        0 <= view.tree.selected < view.tree.rows.len(),
    ensures
        ({
            let (after, outcome) = view.handle_event(Event::Key(key), line);
            let plain = key.modifiers == Modifiers::Plain;
            let control = key.modifiers == Modifiers::Control;
            let down = plain && (key.code == KeyCode::Char('j') || key.code == KeyCode::Down)
                || control && key.code == KeyCode::Char('n');
            let up = plain && (key.code == KeyCode::Char('k') || key.code == KeyCode::Up) || control
                && key.code == KeyCode::Char('p');
            let first = plain && key.code == KeyCode::Char('g');
            let last = key.modifiers == Modifiers::Shift && key.code == KeyCode::Char('G');
            let len = view.tree.rows.len() as int;
            let was = view.tree.selected;
            let now = after.tree.selected;
            &&& down || up || first || last ==> {
                &&& outcome is Consumed
                &&& after == (FileTreeView {
                    tree: TreeView { selected: now, ..view.tree },
                    ..view
                })
                &&& 0 <= now < len
            }
            &&& down ==> now == was + 1 || now == was + 1 - len
            &&& up ==> now == was - 1 || now == was - 1 + len
            &&& first ==> now == 0
            &&& last ==> now == len - 1
        }),
{
}

/// The keys that page move the cursor by `half` rows, half of those that fit and
/// at least one, and stop at the ends.
pub proof fn law_paging_keys<D>(
    view: FileTreeView<D>,
    key: KeyEvent,
    line: Seq<char>,
    half: int,
)
    requires
        view.prompt is None,
        view.confirm is None,
        0 <= view.tree.selected < view.tree.rows.len(),
        0 <= view.height,
        half >= 1,
        2 * half <= view.height < 2 * half + 2 || (half == 1 && view.height < 2),
    ensures
        ({
            let (after, outcome) = view.handle_event(Event::Key(key), line);
            let down = key.modifiers == Modifiers::Plain && key.code == KeyCode::PageDown
                || key.modifiers == Modifiers::Control && key.code == KeyCode::Char('d');
            let up = key.modifiers == Modifiers::Plain && key.code == KeyCode::PageUp
                || key.modifiers == Modifiers::Control && key.code == KeyCode::Char('u');
            let last = view.tree.rows.len() - 1;
            let was = view.tree.selected;
            let now = after.tree.selected;
            &&& down || up ==> {
                &&& outcome is Consumed
                &&& after == (FileTreeView {
                    tree: TreeView { selected: now, ..view.tree },
                    ..view
                })
            }
            &&& down && was + half <= last ==> now == was + half
            &&& down && was + half > last ==> now == last
            &&& up && was >= half ==> now == was - half
            &&& up && was < half ==> now == 0
        }),
{
}

/// In an empty tree no key but the ones that create or close does anything.
pub proof fn law_keys_in_an_empty_tree<D>(view: FileTreeView<D>, key: KeyEvent, line: Seq<char>)
    requires
        view.prompt is None,
        view.confirm is None,
        view.tree.rows.len() == 0,
        key != (KeyEvent { code: KeyCode::Esc, modifiers: Modifiers::Plain }),
        key != (KeyEvent { code: KeyCode::Char('c'), modifiers: Modifiers::Control }),
        key != (KeyEvent { code: KeyCode::Char('a'), modifiers: Modifiers::Plain }),
        key != (KeyEvent { code: KeyCode::Char('A'), modifiers: Modifiers::Shift }),
    ensures
        view.handle_event(Event::Key(key), line) == (view, OutcomeView::Consumed),
{
}

/// The keys that activate open the file under the cursor, shut the directory
/// under the cursor, or have it read in order to open it.
pub proof fn law_activating_keys<D>(view: FileTreeView<D>, key: KeyEvent, line: Seq<char>)
    requires
        view.prompt is None,
        view.confirm is None,
        0 <= view.tree.selected < view.tree.rows.len(),
        key.modifiers == Modifiers::Plain,
        key.code == KeyCode::Char('o') || key.code == KeyCode::Char('l') || key.code
            == KeyCode::Enter || key.code == KeyCode::Right,
    ensures
        ({
            let (after, outcome) = view.handle_event(Event::Key(key), line);
            let at = view.tree.selected;
            let row = view.tree.rows[at];
            let text = crate::path::buf_text(&row.path);
            &&& !row.is_dir ==> after == view && outcome == OutcomeView::Open(text)
            &&& row.is_dir && !row.expanded ==> {
                &&& after == view
                &&& outcome == OutcomeView::Run(TaskView::Expand { index: at, path: text })
            }
            &&& row.is_dir && row.expanded ==> {
                &&& outcome is Consumed
                &&& after == (FileTreeView { tree: view.tree.collapse(at), ..view })
                &&& after.tree.selected == at
                &&& !after.tree.rows[at].expanded
            }
        }),
{
    crate::model::lemma_run_end(
        view.tree.rows,
        view.tree.selected + 1,
        view.tree.rows[view.tree.selected].depth as int,
    );
}

/// A file is opened only by an activating key on its own row: whatever is
/// opened is what the cursor is on, and it is no directory.
pub proof fn law_opens_what_the_cursor_is_on<D>(
    view: FileTreeView<D>,
    event: Event,
    line: Seq<char>,
)
    ensures
        view.handle_event(event, line).1 matches OutcomeView::Open(path) ==> {
            let at = view.tree.selected;
            &&& view.prompt is None && view.confirm is None
            &&& view.tree.rows.len() > 0
            &&& !view.tree.rows[at].is_dir
            &&& path == crate::path::buf_text(&view.tree.rows[at].path)
            &&& view.handle_event(event, line).0 == view
        },
{
}

/// A directory is read in order to open it only by an activating key on its own
/// row, while it is shut.
pub proof fn law_expands_what_the_cursor_is_on<D>(
    view: FileTreeView<D>,
    event: Event,
    line: Seq<char>,
)
    ensures
        view.handle_event(event, line).1 matches OutcomeView::Run(
            TaskView::Expand { index, path },
        ) ==> {
            &&& view.prompt is None && view.confirm is None
            &&& index == view.tree.selected
            &&& view.tree.rows[index].is_dir && !view.tree.rows[index].expanded
            &&& path == crate::path::buf_text(&view.tree.rows[index].path)
        },
{
}

/// The keys that leave shut the directory under the cursor where it is open;
/// else they put the cursor on the nearest row above that is less deep, the
/// directory that the row lives in. At the top there is none, and nothing
/// happens.
pub proof fn law_leaving_keys<D>(
    view: FileTreeView<D>,
    key: KeyEvent,
    line: Seq<char>,
    parent: int,
)
    requires
        view.prompt is None,
        view.confirm is None,
        0 <= view.tree.selected < view.tree.rows.len(),
        view.tree.rows[view.tree.selected].expanded ==> view.tree.rows[view.tree.selected].is_dir,
        key.modifiers == Modifiers::Plain,
        key.code == KeyCode::Char('h') || key.code == KeyCode::Left,
    ensures
        ({
            let (after, outcome) = view.handle_event(Event::Key(key), line);
            let at = view.tree.selected;
            let rows = view.tree.rows;
            &&& outcome is Consumed
            &&& rows[at].expanded ==> after == (FileTreeView {
                tree: view.tree.collapse(at),
                ..view
            })
            &&& !rows[at].expanded && 0 <= parent < at && rows[parent].depth < rows[at].depth && (
            forall|j: int| parent < j < at ==> (#[trigger] rows[j]).depth >= rows[at].depth)
                ==> after == (FileTreeView {
                tree: TreeView { selected: parent, ..view.tree },
                ..view
            })
            &&& !rows[at].expanded && (forall|j: int|
                0 <= j < at ==> (#[trigger] rows[j]).depth >= rows[at].depth) ==> after == view
        }),
{
    let at = view.tree.selected;
    crate::tree_laws::law_no_parent(view.tree, at);
    if 0 <= parent < at {
        crate::tree_laws::law_parent_of(view.tree, at, parent);
    }
}

/// The keys that create ask for a name under a label of their own, with nothing
/// typed yet.
pub proof fn law_creating_keys<D>(view: FileTreeView<D>, line: Seq<char>)
    requires
        view.prompt is None,
        view.confirm is None,
    ensures
        view.handle_event(
            Event::Key(KeyEvent { code: KeyCode::Char('a'), modifiers: Modifiers::Plain }),
            line,
        ) == (
            FileTreeView { prompt: Some(Pending::CreateFile), ..view },
            OutcomeView::Ask { label: "create file: "@, line: Seq::empty() },
        ),
        view.handle_event(
            Event::Key(KeyEvent { code: KeyCode::Char('A'), modifiers: Modifiers::Shift }),
            line,
        ) == (
            FileTreeView { prompt: Some(Pending::CreateDirectory), ..view },
            OutcomeView::Ask { label: "create directory: "@, line: Seq::empty() },
        ),
{
}

/// `r` asks for another name of the entry under the cursor, and starts from the
/// one it shows.
pub proof fn law_renaming_key<D>(view: FileTreeView<D>, line: Seq<char>)
    requires
        view.prompt is None,
        view.confirm is None,
        0 <= view.tree.selected < view.tree.rows.len(),
    ensures
        ({
            let path = view.tree.rows[view.tree.selected].path;
            view.handle_event(
                Event::Key(KeyEvent { code: KeyCode::Char('r'), modifiers: Modifiers::Plain }),
                line,
            ) == (
                FileTreeView { prompt: Some(Pending::Rename(path)), ..view },
                OutcomeView::Ask {
                    label: "rename to: "@,
                    line: crate::path::shown_text(crate::path::buf_text(&path)),
                },
            )
        }),
{
}

/// `d` asks about the entry under the cursor, by its name, and says of a
/// directory that everything in it goes too. Nothing else changes.
pub proof fn law_deleting_key<D>(view: FileTreeView<D>, line: Seq<char>)
    requires
        view.prompt is None,
        view.confirm is None,
        0 <= view.tree.selected < view.tree.rows.len(),
    ensures
        ({
            let (after, outcome) = view.handle_event(
                Event::Key(KeyEvent { code: KeyCode::Char('d'), modifiers: Modifiers::Plain }),
                line,
            );
            let row = view.tree.rows[view.tree.selected];
            let name = crate::path::shown_text(crate::path::buf_text(&row.path));
            &&& outcome is Consumed
            &&& after == (FileTreeView { confirm: after.confirm, ..view })
            &&& after.confirm matches Some(confirm)
            &&& confirm.path == row.path
            &&& confirm.recursive == row.is_dir
            &&& row.is_dir ==> confirm.message == "delete "@ + name
                + "/ and everything in it? (y/N) "@
            &&& !row.is_dir ==> confirm.message == "delete "@ + name + "? (y/N) "@
        }),
{
}

/// The tree is closed by Esc and `C-c` and by no other key, and only while
/// neither a prompt nor a question is open.
pub proof fn law_closing_keys<D>(view: FileTreeView<D>, event: Event, line: Seq<char>)
    ensures
        view.handle_event(event, line).1 is Close <==> {
            &&& view.prompt is None
            &&& view.confirm is None
            &&& event matches Event::Key(key)
            &&& key.modifiers == Modifiers::Plain && key.code == KeyCode::Esc || key.modifiers
                == Modifiers::Control && key.code == KeyCode::Char('c')
        },
        view.handle_event(event, line).1 is Close ==> view.handle_event(event, line).0 == view,
{
}

/// Every key answers the question, and so takes it away. A `y` on its own starts
/// the deletion of what was asked about; any other key does nothing more.
pub proof fn law_answering_keys<D>(view: FileTreeView<D>, key: KeyEvent, line: Seq<char>)
    requires
        view.confirm is Some,
    ensures
        ({
            let (after, outcome) = view.handle_event(Event::Key(key), line);
            let yes = key.modifiers == Modifiers::Plain && key.code == KeyCode::Char('y');
            let asked = view.confirm->0;
            &&& after == (FileTreeView { confirm: None, ..view })
            &&& yes ==> {
                &&& outcome matches OutcomeView::Run(TaskView::Delete(deletion))
                &&& deletion.path == crate::path::buf_text(&asked.path)
                &&& deletion.recursive == asked.recursive
                &&& TaskView::Delete(deletion) == view.delete(deletion.path, deletion.recursive)
            }
            &&& !yes ==> outcome is Consumed
        }),
{
}

/// Enter closes the prompt and acts on the name in it, without the white space
/// around it; with nothing else in it, it only closes.
pub proof fn law_submitting<D>(
    view: FileTreeView<D>,
    before: Seq<char>,
    name: Seq<char>,
    after_name: Seq<char>,
)
    requires
        view.confirm is None,
        view.prompt is Some,
        forall|i: int| 0 <= i < before.len() ==> crate::text::white_space(#[trigger] before[i]),
        forall|i: int|
            0 <= i < after_name.len() ==> crate::text::white_space(#[trigger] after_name[i]),
        name.len() > 0 ==> !crate::text::white_space(name[0]) && !crate::text::white_space(
            name.last(),
        ),
    ensures
        ({
            let (after, outcome) = view.handle_event(
                Event::Key(KeyEvent { code: KeyCode::Enter, modifiers: Modifiers::Plain }),
                before + name + after_name,
            );
            &&& after == (FileTreeView { prompt: None, ..view })
            &&& name.len() == 0 ==> outcome is Consumed
            &&& name.len() > 0 ==> match view.prompt->0 {
                Pending::CreateFile => outcome == OutcomeView::Run(view.create(name, false)),
                Pending::CreateDirectory => outcome == OutcomeView::Run(view.create(name, true)),
                Pending::Rename(from) => outcome == view.rename(crate::path::buf_text(&from), name),
            }
        }),
{
    crate::text_laws::law_trim(before, name, after_name);
}

/// Esc and `C-c` close the prompt without acting on it. Any key but these and
/// Enter is typed into it, and changes nothing else.
pub proof fn law_typing_keys<D>(view: FileTreeView<D>, key: KeyEvent, line: Seq<char>)
    requires
        view.confirm is None,
        view.prompt is Some,
        key != (KeyEvent { code: KeyCode::Enter, modifiers: Modifiers::Plain }),
    ensures
        ({
            let cancel = key.modifiers == Modifiers::Plain && key.code == KeyCode::Esc
                || key.modifiers == Modifiers::Control && key.code == KeyCode::Char('c');
            &&& cancel ==> view.handle_event(Event::Key(key), line) == (
                FileTreeView { prompt: None, ..view },
                OutcomeView::Consumed,
            )
            &&& !cancel ==> view.handle_event(Event::Key(key), line) == (view, OutcomeView::Edit)
        }),
{
}

/// A key that has no meaning changes nothing and goes no further.
pub proof fn law_other_keys<D>(view: FileTreeView<D>, key: KeyEvent, line: Seq<char>)
    requires
        view.prompt is None,
        view.confirm is None,
        key.modifiers == Modifiers::Other || {
            let code = key.code;
            &&& key.modifiers == Modifiers::Plain ==> {
                ||| code == KeyCode::Other
                ||| {
                    &&& code is Char
                    &&& code != KeyCode::Char('j') && code != KeyCode::Char('k')
                    &&& code != KeyCode::Char('g') && code != KeyCode::Char('o')
                    &&& code != KeyCode::Char('l') && code != KeyCode::Char('h')
                    &&& code != KeyCode::Char('a') && code != KeyCode::Char('r')
                    &&& code != KeyCode::Char('d')
                }
            }
            &&& key.modifiers == Modifiers::Shift ==> code != KeyCode::Char('G') && code
                != KeyCode::Char('A')
            &&& key.modifiers == Modifiers::Control ==> {
                &&& code != KeyCode::Char('c') && code != KeyCode::Char('n')
                &&& code != KeyCode::Char('p') && code != KeyCode::Char('d')
                &&& code != KeyCode::Char('u')
            }
        },
    ensures
        view.handle_event(Event::Key(key), line) == (view, OutcomeView::Consumed),
{
}

/// No event touches the root, the scrolling, the rule for hidden files, the
/// previews or where they are shown; and what it asks to be run is the reading
/// of a directory, the deletion that was confirmed, or the look whether a name
/// is taken.
pub proof fn law_events_leave_the_rest<D>(view: FileTreeView<D>, event: Event, line: Seq<char>)
    ensures
        ({
            let (after, outcome) = view.handle_event(event, line);
            &&& after == (FileTreeView {
                tree: after.tree,
                prompt: after.prompt,
                confirm: after.confirm,
                ..view
            })
            &&& after.tree.root == view.tree.root
            &&& outcome matches OutcomeView::Run(task) ==> task is Expand || task is Delete
                || task is CheckCreate || task is CheckRename
        }),
{
}

} // verus!
