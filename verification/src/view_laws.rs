//! What tasks, replies and outcomes say is what is in them.

use vstd::prelude::*;

use crate::component::{Confirm, Outcome, OutcomeView};
use crate::task::{
    Creation, Deletion, Refreshing, Renaming, Reply, ReplyView, Step, StepView, Task, TaskView,
};

verus! {

/// What a creation, a rename, a deletion and a reading say is what is in them:
/// the texts of their paths, their row if they have one, and what else was
/// asked for.
pub proof fn law_changes_say(
    creation: Creation,
    renaming: Renaming,
    deletion: Deletion,
    refreshing: Refreshing,
)
    ensures
        creation@.directory == crate::path::buf_text(&creation.directory),
        creation@.path == crate::path::buf_text(&creation.path),
        creation@.directory_wanted == creation.directory_wanted,
        creation.index is None <==> creation@.index is None,
        creation.index matches Some(index) ==> creation@.index == Some(index as int),
        renaming@.from == crate::path::buf_text(&renaming.from),
        renaming@.to == crate::path::buf_text(&renaming.to),
        deletion@.directory == crate::path::buf_text(&deletion.directory),
        deletion@.path == crate::path::buf_text(&deletion.path),
        deletion@.recursive == deletion.recursive,
        deletion.index is None <==> deletion@.index is None,
        deletion.index matches Some(index) ==> deletion@.index == Some(index as int),
        refreshing@.directory == crate::path::buf_text(&refreshing.directory),
        refreshing.index is None <==> refreshing@.index is None,
        refreshing.index matches Some(index) ==> refreshing@.index == Some(index as int),
        refreshing.select is None <==> refreshing@.select is None,
        refreshing.select matches Some(path) ==> refreshing@.select == Some(
            crate::path::buf_text(&path),
        ),
{
}

/// A task says which it is and what is in it.
pub proof fn law_tasks_say(task: Task)
    ensures
        match task {
            Task::CheckCreate(creation) => task@ == TaskView::CheckCreate(creation@),
            Task::Create(creation) => task@ == TaskView::Create(creation@),
            Task::CheckRename(renaming) => task@ == TaskView::CheckRename(renaming@),
            Task::Rename(renaming) => task@ == TaskView::Rename(renaming@),
            Task::Delete(deletion) => task@ == TaskView::Delete(deletion@),
            Task::Refresh(refreshing) => task@ == TaskView::Refresh(refreshing@),
            Task::Expand(expansion) => {
                &&& task@ matches TaskView::Expand { index, path }
                &&& index == expansion.index
                &&& path == crate::path::buf_text(&expansion.path)
            },
            Task::Reveal(revelation) => {
                &&& task@ matches TaskView::Reveal { index, directory, target }
                &&& index == revelation.index
                &&& directory == crate::path::buf_text(&revelation.directory)
                &&& target == crate::path::buf_text(&revelation.target)
            },
        },
{
}

/// A reply, a step and an outcome say which they are and what is in them.
pub proof fn law_results_say(reply: Reply, step: Step, outcome: Outcome, confirm: Confirm)
    ensures
        match reply {
            Reply::Exists(exists_now) => reply@ == ReplyView::Exists(exists_now),
            Reply::Done => reply@ is Done,
            Reply::Listing(found) => reply@ == ReplyView::Listing(found@),
            Reply::Failed(error) => reply@ == ReplyView::Failed(error@),
        },
        match step {
            Step::Finished => step@ is Finished,
            Step::Report(message) => step@ == StepView::Report(message@),
            Step::Next(task) => step@ == StepView::Next(task@),
        },
        match outcome {
            Outcome::Ignored => outcome@ is Ignored,
            Outcome::Consumed => outcome@ is Consumed,
            Outcome::Close => outcome@ is Close,
            Outcome::Open(path) => outcome@ == OutcomeView::Open(crate::path::buf_text(&path)),
            Outcome::Ask { label, line } => outcome@ == (OutcomeView::Ask {
                label: label@,
                line: line@,
            }),
            Outcome::Edit => outcome@ is Edit,
            Outcome::Report(message) => outcome@ == OutcomeView::Report(message@),
            Outcome::Run(task) => outcome@ == OutcomeView::Run(task@),
        },
        confirm@.message == confirm.message@,
        confirm@.path == confirm.path,
        confirm@.recursive == confirm.recursive,
{
}

} // verus!
