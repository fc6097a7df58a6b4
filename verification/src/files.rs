//! Plans of changes to the files of a directory, and what they come to.
use vstd::prelude::*;

verus! {

/// A change to the files of a directory. Files are named inside it.
#[derive(Debug, PartialEq, Eq)]
pub enum FileAction {
    /// Write the downloaded bytes to a new file.
    Write { file: String },
    /// Give a file another name, in place of a file that has it.
    Rename { from: String, to: String },
    /// Delete a file.
    Remove { file: String },
}

/// A step of a plan. If its action fails, the plan ends there: what `undo`
/// lists is tried, one after the other, and the error is reported.
#[derive(Debug, PartialEq, Eq)]
pub struct Step {
    pub action: FileAction,
    pub undo: Vec<FileAction>,
}

/// The model of `FileAction`.
pub enum FileActionView {
    Write { file: Seq<char> },
    Rename { from: Seq<char>, to: Seq<char> },
    Remove { file: Seq<char> },
}

/// The model of `Step`.
#[verifier::ext_equal]
pub struct StepView {
    pub action: FileActionView,
    pub undo: Seq<FileActionView>,
}

impl View for FileAction {
    type V = FileActionView;

    open spec fn view(&self) -> FileActionView {
        match *self {
            FileAction::Write { file } => FileActionView::Write { file: file@ },
            FileAction::Rename { from, to } => FileActionView::Rename { from: from@, to: to@ },
            FileAction::Remove { file } => FileActionView::Remove { file: file@ },
        }
    }
}

/// The models of a sequence of actions.
pub open spec fn action_views(actions: Seq<FileAction>) -> Seq<FileActionView> {
    actions.map_values(|action: FileAction| action@)
}

impl View for Step {
    type V = StepView;

    open spec fn view(&self) -> StepView {
        StepView { action: self.action@, undo: action_views(self.undo@) }
    }
}

/// The models of a sequence of steps.
pub open spec fn step_views(steps: Seq<Step>) -> Seq<StepView> {
    steps.map_values(|step: Step| step@)
}

/// The files of a directory with their contents, by name.
pub type Disk = Map<Seq<char>, Seq<u8>>;

/// The files after an action, where `contents` are the downloaded bytes.
pub open spec fn performed(disk: Disk, action: FileActionView, contents: Seq<u8>) -> Disk {
    match action {
        FileActionView::Write { file } => disk.insert(file, contents),
        FileActionView::Rename { from, to } => if disk.contains_key(from) {
            disk.remove(from).insert(to, disk[from])
        } else {
            disk
        },
        FileActionView::Remove { file } => disk.remove(file),
    }
}

/// The files after several actions.
pub open spec fn performed_all(
    disk: Disk,
    actions: Seq<FileActionView>,
    contents: Seq<u8>,
) -> Disk
    decreases actions.len(),
{
    if actions.len() == 0 {
        disk
    } else {
        performed_all(performed(disk, actions[0], contents), actions.drop_first(), contents)
    }
}

/// The files after a plan of which the step at `failing` fails and changes
/// nothing by itself; every step succeeds if there is none there.
pub open spec fn carried_out(
    disk: Disk,
    steps: Seq<StepView>,
    contents: Seq<u8>,
    failing: int,
) -> Disk
    decreases steps.len(),
{
    if steps.len() == 0 {
        disk
    } else if failing == 0 {
        performed_all(disk, steps[0].undo, contents)
    } else {
        carried_out(
            performed(disk, steps[0].action, contents),
            steps.drop_first(),
            contents,
            failing - 1,
        )
    }
}

/// Writing, renaming and deleting a file change that file and no other: a
/// written file holds the bytes, a renamed one what it held under its old name,
/// and a deleted one is gone.
pub proof fn actions_change_their_files_only(
    disk: Disk,
    file: Seq<char>,
    to: Seq<char>,
    contents: Seq<u8>,
    other: Seq<char>,
)
    ensures
        ({
            let written = performed(disk, FileActionView::Write { file }, contents);
            let removed = performed(disk, FileActionView::Remove { file }, contents);
            let renamed = performed(disk, FileActionView::Rename { from: file, to }, contents);
            &&& written.contains_key(file) && written[file] == contents
            &&& !removed.contains_key(file)
            &&& disk.contains_key(file) ==> renamed.contains_key(to) && renamed[to] == disk[file]
            &&& disk.contains_key(file) && file != to ==> !renamed.contains_key(file)
            &&& !disk.contains_key(file) ==> renamed == disk
            &&& other != file ==> written.contains_key(other) == disk.contains_key(other)
            &&& other != file ==> removed.contains_key(other) == disk.contains_key(other)
            &&& other != file && other != to ==> renamed.contains_key(other) == disk.contains_key(
                other,
            )
            &&& other != file && disk.contains_key(other) ==> written[other] == disk[other]
                && removed[other] == disk[other]
            &&& other != file && other != to && disk.contains_key(other) ==> renamed[other]
                == disk[other]
        }),
{
}

/// Actions are done one after the other, and a plan ends at the step that
/// fails, with what undoes the steps before.
pub proof fn plans_are_carried_out_in_order(
    disk: Disk,
    first: StepView,
    rest: Seq<StepView>,
    action: FileActionView,
    actions: Seq<FileActionView>,
    contents: Seq<u8>,
    failing: int,
)
    ensures
        performed_all(disk, Seq::empty(), contents) == disk,
        performed_all(disk, seq![action] + actions, contents) == performed_all(
            performed(disk, action, contents),
            actions,
            contents,
        ),
        carried_out(disk, Seq::empty(), contents, failing) == disk,
        carried_out(disk, seq![first] + rest, contents, 0) == performed_all(
            disk,
            first.undo,
            contents,
        ),
        failing != 0 ==> carried_out(disk, seq![first] + rest, contents, failing) == carried_out(
            performed(disk, first.action, contents),
            rest,
            contents,
            failing - 1,
        ),
{
    assert((seq![action] + actions).drop_first() =~= actions);
    assert((seq![first] + rest).drop_first() =~= rest);
}

/// The models of steps and actions hold what those do.
pub proof fn step_models_are_faithful(steps: Seq<Step>, actions: Seq<FileAction>)
    ensures
        step_views(steps).len() == steps.len(),
        action_views(actions).len() == actions.len(),
        forall|i: int|
            #![trigger step_views(steps)[i]]
            0 <= i < steps.len() ==> step_views(steps)[i].action == steps[i].action@ && step_views(
                steps,
            )[i].undo == action_views(steps[i].undo@),
        forall|i: int|
            #![trigger action_views(actions)[i]]
            0 <= i < actions.len() ==> match actions[i] {
                FileAction::Write { file } => action_views(actions)[i] == (FileActionView::Write {
                    file: file@,
                }),
                FileAction::Rename { from, to } => action_views(actions)[i] == (
                FileActionView::Rename { from: from@, to: to@ }),
                FileAction::Remove { file } => action_views(actions)[i] == (
                FileActionView::Remove { file: file@ }),
            },
{
}

} // verus!
