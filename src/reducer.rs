//! The reducer: from a model and a message to the next model and the command,
//! if any, that persistence should carry out.
use vstd::prelude::*;
use crate::model::{
    command_view, commands_view, has_task, ids_unique, Cmd, CmdView, Model, ModelView, Msg, MsgView,
};
use crate::quick_add::{parse, parsed};
use crate::task::{copy_tasks, cycled, lemma_tasks_view_push, Filter, Task, TaskId, TaskState, TaskView};
use crate::task_list::{cycle_task, remove_id, remove_task, retain_known, set_done, set_text};
use crate::task_list::{contains_id, has_task_id};
use crate::seq_facts::{lemma_filter_ids_unique, lemma_filter_keeps_all, lemma_filter_no_duplicates};
use crate::text::{starts_with, starts_with_char};

verus! {

/// The character that turns the composer into a search box.
pub const SEARCH_SENTINEL: char = '/';

/// The filter after the composer is set to `s`: an emptied search goes back to
/// `All`, and text that starts with the sentinel turns any other filter into
/// `Search`.
pub open spec fn next_filter(f: Filter, s: Seq<char>) -> Filter {
    if f == Filter::Search {
        if s.len() == 0 {
            Filter::All
        } else {
            Filter::Search
        }
    } else if starts_with(s, SEARCH_SENTINEL) {
        Filter::Search
    } else {
        f
    }
}

/// `t` marked done or not, if it has the id `id`.
pub open spec fn with_done(t: TaskView, id: TaskId, done: bool) -> TaskView {
    if t.task_id == id {
        TaskView { task_id: t.task_id, task_text: t.task_text, done, state: t.state }
    } else {
        t
    }
}

/// `t` cycled one step, if it has the id `id`.
pub open spec fn with_cycled(t: TaskView, id: TaskId) -> TaskView {
    if t.task_id == id {
        TaskView {
            task_id: t.task_id,
            task_text: t.task_text,
            done: t.done,
            state: cycled(t.done, t.state),
        }
    } else {
        t
    }
}

/// `t` with the text `text`, if it has the id `id`.
pub open spec fn with_text(t: TaskView, id: TaskId, text: Seq<char>) -> TaskView {
    if t.task_id == id {
        TaskView { task_id: t.task_id, task_text: text, done: t.done, state: t.state }
    } else {
        t
    }
}

/// Marks the tasks with the id `id` done or not done.
pub open spec fn mark_done(id: TaskId, done: bool) -> spec_fn(TaskView) -> TaskView {
    |t: TaskView| with_done(t, id, done)
}

/// Cycles the tasks with the id `id` one step.
pub open spec fn cycle_one(id: TaskId) -> spec_fn(TaskView) -> TaskView {
    |t: TaskView| with_cycled(t, id)
}

/// Gives the tasks with the id `id` the text `text`.
pub open spec fn retext(id: TaskId, text: Seq<char>) -> spec_fn(TaskView) -> TaskView {
    |t: TaskView| with_text(t, id, text)
}

/// A task that is not done yet, with a fresh id.
pub open spec fn new_task(id: TaskId, text: Seq<char>, state: TaskState) -> TaskView {
    TaskView { task_id: id, task_text: text, done: false, state }
}

/// Holds of the tasks whose id is not `id`.
pub open spec fn task_id_is_not(id: TaskId) -> spec_fn(TaskView) -> bool {
    |t: TaskView| t.task_id != id
}

/// Holds of the ids other than `id`.
pub open spec fn id_is_not(id: TaskId) -> spec_fn(TaskId) -> bool {
    |e: TaskId| e != id
}

/// Holds of the ids that some task of `ts` has.
pub open spec fn id_in(ts: Seq<TaskView>) -> spec_fn(TaskId) -> bool {
    |e: TaskId| has_task(ts, e)
}

/// `ts` without its tasks that have the id `id`.
pub open spec fn without_task(ts: Seq<TaskView>, id: TaskId) -> Seq<TaskView> {
    ts.filter(task_id_is_not(id))
}

/// `ids` without `id`.
pub open spec fn without_id(ids: Seq<TaskId>, id: TaskId) -> Seq<TaskId> {
    ids.filter(id_is_not(id))
}

/// `m` with its task list replaced by `ts`.
pub open spec fn with_tasks(m: ModelView, ts: Seq<TaskView>) -> ModelView {
    ModelView {
        add_task_text_box: m.add_task_text_box,
        tasks: ts,
        filter: m.filter,
        edit_tasks: m.edit_tasks,
    }
}

/// `m` with `t` appended to its tasks, and the command to write the result.
pub open spec fn appended(m: ModelView, t: TaskView) -> (ModelView, Option<CmdView>) {
    let ts = m.tasks.push(t);
    (with_tasks(m, ts), Some(CmdView::Write(ts)))
}

/// One step of the reducer. `fresh` is the id that a new task gets, if the
/// message creates one. A message that names an id that no task has leaves
/// the model as it is.
pub open spec fn step(m: ModelView, msg: MsgView, fresh: TaskId) -> (ModelView, Option<CmdView>) {
    match msg {
        MsgView::LoadedTasks(ts) => (
            ModelView {
                add_task_text_box: m.add_task_text_box,
                tasks: ts,
                filter: m.filter,
                edit_tasks: m.edit_tasks.filter(id_in(ts)),
            },
            None,
        ),
        MsgView::TextInput(s) => (
            ModelView {
                add_task_text_box: s,
                tasks: m.tasks,
                filter: next_filter(m.filter, s),
                edit_tasks: m.edit_tasks,
            },
            None,
        ),
        MsgView::Add => {
            if m.filter == Filter::Search {
                (m, None)
            } else {
                let (text, state) = parsed(m.add_task_text_box);
                let ts = m.tasks.push(new_task(fresh, text, state));
                (
                    ModelView {
                        add_task_text_box: Seq::empty(),
                        tasks: ts,
                        filter: m.filter,
                        edit_tasks: m.edit_tasks,
                    },
                    Some(CmdView::Write(ts)),
                )
            }
        },
        MsgView::Reschedule(text) => appended(m, new_task(fresh, text, TaskState::Normal)),
        MsgView::RescheduleActive(text) => appended(m, new_task(fresh, text, TaskState::Chosen)),
        MsgView::CheckBox(id, done) => {
            let ts = m.tasks.map_values(mark_done(id, done));
            (with_tasks(m, ts), Some(CmdView::Write(ts)))
        },
        MsgView::CycleTaskState(id) => {
            let ts = m.tasks.map_values(cycle_one(id));
            (with_tasks(m, ts), Some(CmdView::Write(ts)))
        },
        MsgView::Delete(id) => {
            let ts = without_task(m.tasks, id);
            (
                ModelView {
                    add_task_text_box: m.add_task_text_box,
                    tasks: ts,
                    filter: m.filter,
                    edit_tasks: without_id(m.edit_tasks, id),
                },
                Some(CmdView::Write(ts)),
            )
        },
        MsgView::SetFilter(f) => (
            ModelView {
                add_task_text_box: m.add_task_text_box,
                tasks: m.tasks,
                filter: f,
                edit_tasks: m.edit_tasks,
            },
            None,
        ),
        MsgView::Edit(id) => {
            if has_task(m.tasks, id) && !m.edit_tasks.contains(id) {
                (
                    ModelView {
                        add_task_text_box: m.add_task_text_box,
                        tasks: m.tasks,
                        filter: m.filter,
                        edit_tasks: m.edit_tasks.push(id),
                    },
                    None,
                )
            } else {
                (m, None)
            }
        },
        MsgView::EditInput(id, text) => (
            with_tasks(m, m.tasks.map_values(retext(id, text))),
            None,
        ),
        MsgView::EditDone(id) => (
            ModelView {
                add_task_text_box: m.add_task_text_box,
                tasks: m.tasks,
                filter: m.filter,
                edit_tasks: without_id(m.edit_tasks, id),
            },
            Some(CmdView::Write(m.tasks)),
        ),
    }
}

/// The filter after the composer is set to `s`.
pub fn filter_after_input(f: Filter, s: &String) -> (r: Filter)
    ensures
        r == next_filter(f, s@),
{
    if f == Filter::Search {
        if s.as_str().unicode_len() == 0 {
            Filter::All
        } else {
            Filter::Search
        }
    } else if starts_with_char(s.as_str(), SEARCH_SENTINEL) {
        Filter::Search
    } else {
        f
    }
}

/// The model at start-up: nothing typed, no tasks, every task shown.
pub open spec fn initial_model() -> ModelView {
    ModelView {
        add_task_text_box: Seq::empty(),
        tasks: Seq::empty(),
        filter: Filter::All,
        edit_tasks: Seq::empty(),
    }
}

impl Model {
    /// The model at start-up: nothing typed, no tasks, every task shown.
    pub fn new() -> (r: Model)
        ensures
            r@ == initial_model(),
    {
        let r = Model {
            add_task_text_box: String::new(),
            tasks: Vec::new(),
            filter: Filter::All,
            edit_tasks: Vec::new(),
        };
        proof {
            assert(r@.tasks =~= Seq::<TaskView>::empty());
        }
        r
    }
}

impl Default for Model {
    /// The model at start-up.
    fn default() -> (r: Model)
        ensures
            r@ == initial_model(),
    {
        Model::new()
    }
}

/// The start-up model, and the command that loads the stored tasks into it.
pub fn init() -> (r: (Model, Vec<Cmd>))
    ensures
        r.0@ == initial_model(),
        commands_view(r.1@) == seq![CmdView::Load],
{
    let cmds = vec![Cmd::Load];
    proof {
        assert(commands_view(cmds@) =~= seq![CmdView::Load]);
    }
    (Model::new(), cmds)
}

/// `tasks` as the new task list, with a command to write it.
fn written(
    add_task_text_box: String,
    tasks: Vec<Task>,
    filter: Filter,
    edit_tasks: Vec<TaskId>,
) -> (r: (Model, Option<Cmd>))
    ensures
        r.0 == (Model { add_task_text_box, tasks, filter, edit_tasks }),
        command_view(r.1) == Some(CmdView::Write(r.0@.tasks)),
{
    let snapshot = copy_tasks(&tasks);
    (Model { add_task_text_box, tasks, filter, edit_tasks }, Some(Cmd::Write(snapshot)))
}

/// One step of the reducer, with `fresh` as the id of the task that the
/// message creates, if it creates one.
pub fn update_with_id(m: Model, msg: Msg, fresh: TaskId) -> (r: (Model, Option<Cmd>))
    ensures
        (r.0@, command_view(r.1)) == step(m@, msg@, fresh),
        m@.wf() ==> r.0@.wf(),
        ids_unique(m@.tasks) && !has_task(m@.tasks, fresh) && match msg@ {
            MsgView::LoadedTasks(ts) => ids_unique(ts),
            _ => true,
        } ==> ids_unique(r.0@.tasks),
{
    proof {
        if m@.wf() {
            lemma_step_keeps_wf(m@, msg@, fresh);
        }
        if ids_unique(m@.tasks) && !has_task(m@.tasks, fresh) && match msg@ {
            MsgView::LoadedTasks(ts) => ids_unique(ts),
            _ => true,
        } {
            lemma_step_keeps_ids_unique(m@, msg@, fresh);
        }
    }
    let Model { add_task_text_box, mut tasks, filter, edit_tasks } = m;
    match msg {
        Msg::LoadedTasks(ts) => {
            let kept = retain_known(&edit_tasks, &ts);
            (Model { add_task_text_box, tasks: ts, filter, edit_tasks: kept }, None)
        },
        Msg::TextInput(s) => {
            let f = filter_after_input(filter, &s);
            (Model { add_task_text_box: s, tasks, filter: f, edit_tasks }, None)
        },
        Msg::Add => {
            if filter == Filter::Search {
                (Model { add_task_text_box, tasks, filter, edit_tasks }, None)
            } else {
                let (text, state) = parse(add_task_text_box.as_str());
                let t = Task::new(fresh, text, false, state);
                proof {
                    lemma_tasks_view_push(tasks@, t);
                }
                tasks.push(t);
                written(String::new(), tasks, filter, edit_tasks)
            }
        },
        Msg::Reschedule(text) => {
            let t = Task::new(fresh, text, false, TaskState::Normal);
            proof {
                lemma_tasks_view_push(tasks@, t);
            }
            tasks.push(t);
            written(add_task_text_box, tasks, filter, edit_tasks)
        },
        Msg::RescheduleActive(text) => {
            let t = Task::new(fresh, text, false, TaskState::Chosen);
            proof {
                lemma_tasks_view_push(tasks@, t);
            }
            tasks.push(t);
            written(add_task_text_box, tasks, filter, edit_tasks)
        },
        Msg::CheckBox(id, done) => {
            set_done(&mut tasks, id, done);
            written(add_task_text_box, tasks, filter, edit_tasks)
        },
        Msg::CycleTaskState(id) => {
            cycle_task(&mut tasks, id);
            written(add_task_text_box, tasks, filter, edit_tasks)
        },
        Msg::Delete(id) => {
            let kept = remove_task(&tasks, id);
            let editing = remove_id(&edit_tasks, id);
            written(add_task_text_box, kept, filter, editing)
        },
        Msg::SetFilter(f) => (Model { add_task_text_box, tasks, filter: f, edit_tasks }, None),
        Msg::Edit(id) => {
            let mut edit_tasks = edit_tasks;
            if has_task_id(&tasks, id) && !contains_id(&edit_tasks, id) {
                edit_tasks.push(id);
            }
            (Model { add_task_text_box, tasks, filter, edit_tasks }, None)
        },
        Msg::EditInput(id, text) => {
            set_text(&mut tasks, id, &text);
            (Model { add_task_text_box, tasks, filter, edit_tasks }, None)
        },
        Msg::EditDone(id) => {
            let editing = remove_id(&edit_tasks, id);
            written(add_task_text_box, tasks, filter, editing)
        },
    }
}

/// Relies on `uuid::Uuid::new_v4`: a random version-4 UUID from the operating
/// system's generator, as its 128-bit value. Nothing is known of the value. It
/// panics only where the operating system cannot supply random bytes.
#[verifier::external_body]
fn new_task_id() -> (r: TaskId) {
    uuid::Uuid::new_v4().as_u128()
}

/// One step of the reducer. A message that creates a task gives it a random
/// id; the result is the step with some id, and the id plays no part in the
/// other messages.
pub fn update(m: Model, msg: Msg) -> (r: (Model, Option<Cmd>))
    ensures
        exists|id: TaskId| (r.0@, command_view(r.1)) == step(m@, msg@, id),
        m@.wf() ==> r.0@.wf(),
{
    let fresh: TaskId = match &msg {
        Msg::Add | Msg::Reschedule(_) | Msg::RescheduleActive(_) => new_task_id(),
        _ => 0,
    };
    let r = update_with_id(m, msg, fresh);
    r
}

/// Every id of `ids` is the id of some task of `ts`.
pub open spec fn all_known(ids: Seq<TaskId>, ts: Seq<TaskView>) -> bool {
    forall|k: int| 0 <= k < ids.len() ==> has_task(ts, #[trigger] ids[k])
}

/// A task that is found stays found after a task is appended.
proof fn lemma_known_after_push(ids: Seq<TaskId>, ts: Seq<TaskView>, t: TaskView)
    requires
        all_known(ids, ts),
    ensures
        all_known(ids, ts.push(t)),
{
    assert forall|k: int| 0 <= k < ids.len() implies has_task(ts.push(t), #[trigger] ids[k]) by {
        let j = choose|j: int| 0 <= j < ts.len() && (#[trigger] ts[j]).task_id == ids[k];
        assert(ts.push(t)[j] == ts[j]);
    }
}

/// A task that is found stays found after a change that keeps every id.
proof fn lemma_known_after_map(ids: Seq<TaskId>, ts: Seq<TaskView>, f: spec_fn(TaskView) -> TaskView)
    requires
        all_known(ids, ts),
        forall|t: TaskView| (#[trigger] f(t)).task_id == t.task_id,
    ensures
        all_known(ids, ts.map_values(f)),
{
    assert forall|k: int| 0 <= k < ids.len() implies has_task(ts.map_values(f), #[trigger] ids[k]) by {
        let j = choose|j: int| 0 <= j < ts.len() && (#[trigger] ts[j]).task_id == ids[k];
        assert(ts.map_values(f)[j] == f(ts[j]));
    }
}

/// The ids that a filter keeps are still found.
proof fn lemma_known_after_filter(ids: Seq<TaskId>, ts: Seq<TaskView>, p: spec_fn(TaskId) -> bool)
    requires
        all_known(ids, ts),
    ensures
        all_known(ids.filter(p), ts),
{
    let f = ids.filter(p);
    assert forall|k: int| 0 <= k < f.len() implies has_task(ts, #[trigger] f[k]) by {
        assert(f.contains(f[k]));
        ids.lemma_filter_contains_rev(p, f[k]);
        let j = choose|j: int| 0 <= j < ids.len() && ids[j] == f[k];
        assert(has_task(ts, ids[j]));
    }
}

/// Every step keeps the model's invariant: the ids in edit mode are ids of
/// tasks, each at most once.
pub proof fn lemma_step_keeps_wf(m: ModelView, msg: MsgView, fresh: TaskId)
    requires
        m.wf(),
    ensures
        step(m, msg, fresh).0.wf(),
{
    broadcast use vstd::seq_lib::group_filter_ensures;

    let r = step(m, msg, fresh).0;
    assert(all_known(m.edit_tasks, m.tasks));
    match msg {
        MsgView::LoadedTasks(ts) => {
            lemma_filter_no_duplicates(m.edit_tasks, id_in(ts));
            assert forall|k: int| 0 <= k < r.edit_tasks.len() implies has_task(
                r.tasks,
                #[trigger] r.edit_tasks[k],
            ) by {
                assert(id_in(ts)(r.edit_tasks[k]));
            }
        },
        MsgView::Add => {
            if m.filter != Filter::Search {
                let (text, state) = parsed(m.add_task_text_box);
                lemma_known_after_push(m.edit_tasks, m.tasks, new_task(fresh, text, state));
            }
        },
        MsgView::Reschedule(text) => {
            lemma_known_after_push(m.edit_tasks, m.tasks, new_task(fresh, text, TaskState::Normal));
        },
        MsgView::RescheduleActive(text) => {
            lemma_known_after_push(m.edit_tasks, m.tasks, new_task(fresh, text, TaskState::Chosen));
        },
        MsgView::CheckBox(id, done) => {
            lemma_known_after_map(m.edit_tasks, m.tasks, mark_done(id, done));
        },
        MsgView::CycleTaskState(id) => {
            lemma_known_after_map(m.edit_tasks, m.tasks, cycle_one(id));
        },
        MsgView::EditInput(id, text) => {
            lemma_known_after_map(m.edit_tasks, m.tasks, retext(id, text));
        },
        MsgView::Delete(id) => {
            lemma_filter_no_duplicates(m.edit_tasks, id_is_not(id));
            lemma_known_after_filter(m.edit_tasks, m.tasks, id_is_not(id));
            let e = without_id(m.edit_tasks, id);
            assert forall|k: int| 0 <= k < e.len() implies has_task(r.tasks, #[trigger] e[k]) by {
                assert(id_is_not(id)(e[k]));
                assert(has_task(m.tasks, e[k]));
                let j = choose|j: int| 0 <= j < m.tasks.len() && (#[trigger] m.tasks[j]).task_id == e[k];
                assert(task_id_is_not(id)(m.tasks[j]));
                m.tasks.lemma_filter_contains(task_id_is_not(id), j);
                assert(r.tasks.contains(m.tasks[j]));
                let i = choose|i: int| 0 <= i < r.tasks.len() && r.tasks[i] == m.tasks[j];
                assert(r.tasks[i].task_id == e[k]);
            }
        },
        MsgView::Edit(id) => {
            if has_task(m.tasks, id) && !m.edit_tasks.contains(id) {
                let e = m.edit_tasks.push(id);
                assert forall|a: int, b: int| 0 <= a < e.len() && 0 <= b < e.len() && a != b implies e[a]
                    != e[b] by {
                    if a == m.edit_tasks.len() {
                        assert(e[b] == m.edit_tasks[b]);
                    } else if b == m.edit_tasks.len() {
                        assert(e[a] == m.edit_tasks[a]);
                    } else {
                        assert(e[a] == m.edit_tasks[a] && e[b] == m.edit_tasks[b]);
                    }
                }
                assert forall|k: int| 0 <= k < e.len() implies has_task(m.tasks, #[trigger] e[k]) by {
                    if k < m.edit_tasks.len() {
                        assert(e[k] == m.edit_tasks[k]);
                    }
                }
            }
        },
        MsgView::EditDone(id) => {
            lemma_filter_no_duplicates(m.edit_tasks, id_is_not(id));
            lemma_known_after_filter(m.edit_tasks, m.tasks, id_is_not(id));
        },
        _ => {},
    }
}

/// The task ids stay unique as long as the id given to a new task is unused
/// and a loaded list has unique ids.
pub proof fn lemma_step_keeps_ids_unique(m: ModelView, msg: MsgView, fresh: TaskId)
    requires
        ids_unique(m.tasks),
        !has_task(m.tasks, fresh),
        match msg {
            MsgView::LoadedTasks(ts) => ids_unique(ts),
            _ => true,
        },
    ensures
        ids_unique(step(m, msg, fresh).0.tasks),
{
    let r = step(m, msg, fresh).0;
    if r.tasks.len() == m.tasks.len() + 1 && r.tasks.drop_last() == m.tasks {
        assert forall|a: int, b: int|
            0 <= a < r.tasks.len() && 0 <= b < r.tasks.len() && a != b implies (#[trigger] r.tasks[a]).task_id
            != (#[trigger] r.tasks[b]).task_id by {
            if a < m.tasks.len() && b < m.tasks.len() {
                assert(r.tasks[a] == m.tasks[a] && r.tasks[b] == m.tasks[b]);
            } else if a < m.tasks.len() {
                assert(r.tasks[a] == m.tasks[a]);
            } else if b < m.tasks.len() {
                assert(r.tasks[b] == m.tasks[b]);
            }
        }
    }
    match msg {
        MsgView::Add => {
            if m.filter != Filter::Search {
                assert(r.tasks.drop_last() =~= m.tasks);
            }
        },
        MsgView::Reschedule(_) => {
            assert(r.tasks.drop_last() =~= m.tasks);
        },
        MsgView::RescheduleActive(_) => {
            assert(r.tasks.drop_last() =~= m.tasks);
        },
        MsgView::Delete(id) => {
            lemma_filter_ids_unique(m.tasks, task_id_is_not(id));
        },
        _ => {},
    }
}

/// Cycling the same task three times gives back the model, as long as no
/// task with that id is done.
pub proof fn lemma_cycle_three_times(m: ModelView, id: TaskId, fresh: TaskId)
    requires
        forall|k: int| 0 <= k < m.tasks.len() && (#[trigger] m.tasks[k]).task_id == id ==> !m.tasks[k].done,
    ensures
        step(
            step(step(m, MsgView::CycleTaskState(id), fresh).0, MsgView::CycleTaskState(id), fresh).0,
            MsgView::CycleTaskState(id),
            fresh,
        ).0 == m,
{
    let m1 = step(m, MsgView::CycleTaskState(id), fresh).0;
    let m2 = step(m1, MsgView::CycleTaskState(id), fresh).0;
    let m3 = step(m2, MsgView::CycleTaskState(id), fresh).0;
    assert forall|k: int| 0 <= k < m.tasks.len() implies #[trigger] m3.tasks[k] == m.tasks[k] by {
        assert(m1.tasks[k] == with_cycled(m.tasks[k], id));
        assert(m2.tasks[k] == with_cycled(m1.tasks[k], id));
        assert(m3.tasks[k] == with_cycled(m2.tasks[k], id));
    }
    assert(m3.tasks =~= m.tasks);
}

/// Cycling a task that is done makes it `Normal`, whatever it was before.
pub proof fn lemma_cycle_done_task(m: ModelView, id: TaskId, fresh: TaskId, k: int)
    requires
        0 <= k < m.tasks.len(),
        m.tasks[k].task_id == id,
        m.tasks[k].done,
    ensures
        step(m, MsgView::CycleTaskState(id), fresh).0.tasks[k].state == TaskState::Normal,
{
}

/// Deleting an id removes every task with it and takes it out of edit mode;
/// deleting an id that no task has leaves the model as it was.
pub proof fn lemma_delete(m: ModelView, id: TaskId, fresh: TaskId)
    requires
        m.wf(),
    ensures
        !has_task(step(m, MsgView::Delete(id), fresh).0.tasks, id),
        !step(m, MsgView::Delete(id), fresh).0.edit_tasks.contains(id),
        !has_task(m.tasks, id) ==> step(m, MsgView::Delete(id), fresh).0 == m,
{
    broadcast use vstd::seq_lib::group_filter_ensures;

    let r = step(m, MsgView::Delete(id), fresh).0;
    if has_task(r.tasks, id) {
        let k = choose|k: int| 0 <= k < r.tasks.len() && (#[trigger] r.tasks[k]).task_id == id;
        assert(task_id_is_not(id)(r.tasks[k]));
    }
    if r.edit_tasks.contains(id) {
        let k = choose|k: int| 0 <= k < r.edit_tasks.len() && r.edit_tasks[k] == id;
        assert(id_is_not(id)(r.edit_tasks[k]));
    }
    if !has_task(m.tasks, id) {
        assert forall|k: int| 0 <= k < m.tasks.len() implies task_id_is_not(id)(#[trigger] m.tasks[k]) by {
            if m.tasks[k].task_id == id {
                assert(has_task(m.tasks, id));
            }
        }
        lemma_filter_keeps_all(m.tasks, task_id_is_not(id));
        assert forall|k: int| 0 <= k < m.edit_tasks.len() implies id_is_not(id)(#[trigger] m.edit_tasks[k]) by {
            assert(has_task(m.tasks, m.edit_tasks[k]));
        }
        lemma_filter_keeps_all(m.edit_tasks, id_is_not(id));
    }
}

/// Typing text that starts with the sentinel switches any other filter to
/// `Search`; emptying the composer during a search switches back to `All`.
pub proof fn lemma_text_input_filter(m: ModelView, s: Seq<char>, fresh: TaskId)
    ensures
        m.filter != Filter::Search && starts_with(s, SEARCH_SENTINEL) ==> step(
            m,
            MsgView::TextInput(s),
            fresh,
        ).0.filter == Filter::Search,
        m.filter == Filter::Search && s.len() == 0 ==> step(m, MsgView::TextInput(s), fresh).0.filter
            == Filter::All,
{
}

/// `Add` during a search changes nothing and asks for no command.
pub proof fn lemma_add_while_searching(m: ModelView, fresh: TaskId)
    requires
        m.filter == Filter::Search,
    ensures
        step(m, MsgView::Add, fresh) == (m, None::<CmdView>),
{
}

} // verus!
