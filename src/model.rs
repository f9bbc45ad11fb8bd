//! The application state, the messages that change it and the persistence
//! commands that a change asks for.
use vstd::prelude::*;
use crate::task::{tasks_view, Filter, Task, TaskId, TaskView};

verus! {

/// The whole application state.
#[derive(Clone, Debug, PartialEq, Eq)]
pub struct Model {
    /// The composer: the draft of a new task, or a search query that starts
    /// with `/` while the filter is `Search`.
    pub add_task_text_box: String,
    /// The tasks, in the order they were created.
    pub tasks: Vec<Task>,
    pub filter: Filter,
    /// The tasks being edited in place, by id.
    pub edit_tasks: Vec<TaskId>,
}

/// A model as a mathematical value.
pub struct ModelView {
    pub add_task_text_box: Seq<char>,
    pub tasks: Seq<TaskView>,
    pub filter: Filter,
    pub edit_tasks: Seq<TaskId>,
}

impl View for Model {
    type V = ModelView;

    open spec fn view(&self) -> ModelView {
        ModelView {
            add_task_text_box: self.add_task_text_box@,
            tasks: tasks_view(self.tasks@),
            filter: self.filter,
            edit_tasks: self.edit_tasks@,
        }
    }
}

/// Whether some task in `ts` has the id `id`.
pub open spec fn has_task(ts: Seq<TaskView>, id: TaskId) -> bool {
    exists|k: int| 0 <= k < ts.len() && (#[trigger] ts[k]).task_id == id
}

/// No two tasks of `ts` share an id.
pub open spec fn ids_unique(ts: Seq<TaskView>) -> bool {
    forall|a: int, b: int|
        0 <= a < ts.len() && 0 <= b < ts.len() && a != b ==> (#[trigger] ts[a]).task_id
            != (#[trigger] ts[b]).task_id
}

impl ModelView {
    /// The model's own invariant: every id in edit mode is the id of a task,
    /// and none is in edit mode twice.
    pub open spec fn wf(self) -> bool {
        &&& self.edit_tasks.no_duplicates()
        &&& forall|k: int|
            0 <= k < self.edit_tasks.len() ==> has_task(self.tasks, #[trigger] self.edit_tasks[k])
    }
}

/// An event for the reducer, from the view or from the persistence side.
#[derive(Clone, Debug, PartialEq, Eq)]
pub enum Msg {
    TextInput(String),
    Add,
    CheckBox(TaskId, bool),
    Delete(TaskId),
    SetFilter(Filter),
    CycleTaskState(TaskId),
    Reschedule(String),
    RescheduleActive(String),
    Edit(TaskId),
    EditInput(TaskId, String),
    EditDone(TaskId),
    LoadedTasks(Vec<Task>),
}

/// A message as a mathematical value.
pub enum MsgView {
    TextInput(Seq<char>),
    Add,
    CheckBox(TaskId, bool),
    Delete(TaskId),
    SetFilter(Filter),
    CycleTaskState(TaskId),
    Reschedule(Seq<char>),
    RescheduleActive(Seq<char>),
    Edit(TaskId),
    EditInput(TaskId, Seq<char>),
    EditDone(TaskId),
    LoadedTasks(Seq<TaskView>),
}

impl View for Msg {
    type V = MsgView;

    open spec fn view(&self) -> MsgView {
        match self {
            Msg::TextInput(s) => MsgView::TextInput(s@),
            Msg::Add => MsgView::Add,
            Msg::CheckBox(id, d) => MsgView::CheckBox(*id, *d),
            Msg::Delete(id) => MsgView::Delete(*id),
            Msg::SetFilter(f) => MsgView::SetFilter(*f),
            Msg::CycleTaskState(id) => MsgView::CycleTaskState(*id),
            Msg::Reschedule(s) => MsgView::Reschedule(s@),
            Msg::RescheduleActive(s) => MsgView::RescheduleActive(s@),
            Msg::Edit(id) => MsgView::Edit(*id),
            Msg::EditInput(id, s) => MsgView::EditInput(*id, s@),
            Msg::EditDone(id) => MsgView::EditDone(*id),
            Msg::LoadedTasks(ts) => MsgView::LoadedTasks(tasks_view(ts@)),
        }
    }
}

/// A request to the persistence side.
#[derive(Clone, Debug, PartialEq, Eq)]
pub enum Cmd {
    /// Overwrite the stored task list with this snapshot.
    Write(Vec<Task>),
    /// Read the stored task list and send it back as `Msg::LoadedTasks`.
    Load,
}

/// A command as a mathematical value.
pub enum CmdView {
    Write(Seq<TaskView>),
    Load,
}

impl View for Cmd {
    type V = CmdView;

    open spec fn view(&self) -> CmdView {
        match self {
            Cmd::Write(ts) => CmdView::Write(tasks_view(ts@)),
            Cmd::Load => CmdView::Load,
        }
    }
}

/// The view of an optional command.
pub open spec fn command_view(c: Option<Cmd>) -> Option<CmdView> {
    match c {
        Some(c) => Some(c@),
        None => None,
    }
}

/// The views of a list of commands, one for one.
pub open spec fn commands_view(cs: Seq<Cmd>) -> Seq<CmdView> {
    cs.map_values(|c: Cmd| c@)
}

} // verus!
