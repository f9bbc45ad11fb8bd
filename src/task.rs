//! Tasks, their classification and the display filters.
use vstd::prelude::*;

verus! {

/// Identifies a task: a 128-bit value, written out as a hyphenated UUID.
pub type TaskId = u128;

/// A task's non-completion display state.
#[derive(Clone, Copy, Debug, PartialEq, Eq, Structural)]
pub enum TaskState {
    Normal,
    Chosen,
    Uncertain,
}

/// Selects which tasks are shown. It is view state only and never persisted.
#[derive(Clone, Copy, Debug, PartialEq, Eq, Structural)]
pub enum Filter {
    All,
    Active,
    Uncertain,
    Pending,
    Search,
    Done,
}

/// One entry of the task list.
#[derive(Clone, Debug, PartialEq, Eq)]
pub struct Task {
    pub task_id: TaskId,
    pub task_text: String,
    pub done: bool,
    pub state: TaskState,
}

/// A task as a mathematical value.
pub struct TaskView {
    pub task_id: TaskId,
    pub task_text: Seq<char>,
    pub done: bool,
    pub state: TaskState,
}

impl View for Task {
    type V = TaskView;

    open spec fn view(&self) -> TaskView {
        TaskView {
            task_id: self.task_id,
            task_text: self.task_text@,
            done: self.done,
            state: self.state,
        }
    }
}

/// The views of a sequence of tasks, one for one.
pub open spec fn tasks_view(ts: Seq<Task>) -> Seq<TaskView> {
    ts.map_values(|t: Task| t@)
}

/// Appending a task appends its view.
pub proof fn lemma_tasks_view_push(ts: Seq<Task>, t: Task)
    ensures
        tasks_view(ts.push(t)) == tasks_view(ts).push(t@),
{
    assert(tasks_view(ts.push(t)) =~= tasks_view(ts).push(t@));
}

/// The classification that one step of cycling gives: a completed task always
/// goes back to `Normal`; otherwise `Normal`, `Chosen` and `Uncertain` follow
/// each other in a ring.
pub open spec fn cycled(done: bool, s: TaskState) -> TaskState {
    if done {
        TaskState::Normal
    } else {
        match s {
            TaskState::Normal => TaskState::Chosen,
            TaskState::Chosen => TaskState::Uncertain,
            TaskState::Uncertain => TaskState::Normal,
        }
    }
}

/// The classification after one cycling step of a task with the given
/// completion flag.
pub fn cycle_state(done: bool, s: TaskState) -> (r: TaskState)
    ensures
        r == cycled(done, s),
{
    if done {
        TaskState::Normal
    } else {
        match s {
            TaskState::Normal => TaskState::Chosen,
            TaskState::Chosen => TaskState::Uncertain,
            TaskState::Uncertain => TaskState::Normal,
        }
    }
}

/// Cycling a task that is not done three times gives back its classification;
/// cycling a done task once always gives `Normal`.
pub proof fn lemma_cycle_is_three_cycle(s: TaskState)
    ensures
        cycled(false, cycled(false, cycled(false, s))) == s,
        cycled(true, s) == TaskState::Normal,
{
}

impl Task {
    /// A task with the given fields.
    pub fn new(task_id: TaskId, task_text: String, done: bool, state: TaskState) -> (r: Task)
        ensures
            r@ == (TaskView { task_id, task_text: task_text@, done, state }),
    {
        Task { task_id, task_text, done, state }
    }

    /// A duplicate of `self`, field for field.
    pub fn duplicate(&self) -> (r: Task)
        ensures
            r@ == self@,
    {
        Task {
            task_id: self.task_id,
            task_text: self.task_text.clone(),
            done: self.done,
            state: self.state,
        }
    }
}

/// A copy of a task list, task for task.
pub fn copy_tasks(ts: &Vec<Task>) -> (r: Vec<Task>)
    ensures
        tasks_view(r@) == tasks_view(ts@),
{
    let mut r: Vec<Task> = Vec::new();
    let mut i: usize = 0;
    while i < ts.len()
        invariant
            0 <= i <= ts@.len(),
            r@.len() == i,
            forall|k: int| 0 <= k < i ==> (#[trigger] r@[k])@ == ts@[k]@,
        decreases ts@.len() - i,
    {
        let t = ts[i].duplicate();
        r.push(t);
        i = i + 1;
    }
    proof {
        assert(tasks_view(r@) =~= tasks_view(ts@));
    }
    r
}

} // verus!
