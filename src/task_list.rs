//! Operations on the task list and on the list of ids in edit mode, by id.
use vstd::prelude::*;
use crate::model::has_task;
use crate::reducer::{
    cycle_one, id_in, id_is_not, mark_done, retext, task_id_is_not, with_cycled, with_done, with_text, without_id, without_task,
};
use crate::task::{cycle_state, tasks_view, Task, TaskId};

verus! {

broadcast use vstd::seq_lib::group_seq_properties;

/// Whether some task of `ts` has the id `id`.
pub fn has_task_id(ts: &Vec<Task>, id: TaskId) -> (r: bool)
    ensures
        r == has_task(tasks_view(ts@), id),
{
    let mut i: usize = 0;
    while i < ts.len()
        invariant
            0 <= i <= ts@.len(),
            forall|k: int| 0 <= k < i ==> (#[trigger] ts@[k]).task_id != id,
        decreases ts@.len() - i,
    {
        if ts[i].task_id == id {
            proof {
                assert(tasks_view(ts@)[i as int].task_id == id);
            }
            return true;
        }
        i = i + 1;
    }
    proof {
        if has_task(tasks_view(ts@), id) {
            let k = choose|k: int|
                0 <= k < tasks_view(ts@).len() && (#[trigger] tasks_view(ts@)[k]).task_id == id;
            assert(ts@[k].task_id == id);
        }
    }
    false
}

/// Whether `id` is in `ids`.
pub fn contains_id(ids: &Vec<TaskId>, id: TaskId) -> (r: bool)
    ensures
        r == ids@.contains(id),
{
    let mut i: usize = 0;
    while i < ids.len()
        invariant
            0 <= i <= ids@.len(),
            forall|k: int| 0 <= k < i ==> ids@[k] != id,
        decreases ids@.len() - i,
    {
        if ids[i] == id {
            return true;
        }
        i = i + 1;
    }
    false
}

/// Marks every task with the id `id` done or not done.
pub fn set_done(ts: &mut Vec<Task>, id: TaskId, done: bool)
    ensures
        tasks_view(final(ts)@) == tasks_view(old(ts)@).map_values(mark_done(id, done)),
{
    let ghost orig = old(ts)@;
    let mut i: usize = 0;
    while i < ts.len()
        invariant
            0 <= i <= ts@.len(),
            ts@.len() == orig.len(),
            forall|k: int| 0 <= k < i ==> (#[trigger] ts@[k])@ == with_done(orig[k]@, id, done),
            forall|k: int| i <= k < ts@.len() ==> #[trigger] ts@[k] == orig[k],
        decreases ts@.len() - i,
    {
        if ts[i].task_id == id {
            ts[i].done = done;
        }
        i = i + 1;
    }
    proof {
        assert(tasks_view(ts@) =~= tasks_view(orig).map_values(mark_done(id, done)));
    }
}

/// Cycles the classification of every task with the id `id` one step.
pub fn cycle_task(ts: &mut Vec<Task>, id: TaskId)
    ensures
        tasks_view(final(ts)@) == tasks_view(old(ts)@).map_values(cycle_one(id)),
{
    let ghost orig = old(ts)@;
    let mut i: usize = 0;
    while i < ts.len()
        invariant
            0 <= i <= ts@.len(),
            ts@.len() == orig.len(),
            forall|k: int| 0 <= k < i ==> (#[trigger] ts@[k])@ == with_cycled(orig[k]@, id),
            forall|k: int| i <= k < ts@.len() ==> #[trigger] ts@[k] == orig[k],
        decreases ts@.len() - i,
    {
        if ts[i].task_id == id {
            let s = cycle_state(ts[i].done, ts[i].state);
            ts[i].state = s;
        }
        i = i + 1;
    }
    proof {
        assert(tasks_view(ts@) =~= tasks_view(orig).map_values(cycle_one(id)));
    }
}

/// Gives every task with the id `id` the text `text`.
pub fn set_text(ts: &mut Vec<Task>, id: TaskId, text: &String)
    ensures
        tasks_view(final(ts)@) == tasks_view(old(ts)@).map_values(retext(id, text@)),
{
    let ghost orig = old(ts)@;
    let mut i: usize = 0;
    while i < ts.len()
        invariant
            0 <= i <= ts@.len(),
            ts@.len() == orig.len(),
            forall|k: int| 0 <= k < i ==> (#[trigger] ts@[k])@ == with_text(orig[k]@, id, text@),
            forall|k: int| i <= k < ts@.len() ==> #[trigger] ts@[k] == orig[k],
        decreases ts@.len() - i,
    {
        if ts[i].task_id == id {
            ts[i].task_text = text.clone();
        }
        i = i + 1;
    }
    proof {
        assert(tasks_view(ts@) =~= tasks_view(orig).map_values(retext(id, text@)));
    }
}

/// The tasks of `ts` whose id is not `id`, in their order.
pub fn remove_task(ts: &Vec<Task>, id: TaskId) -> (r: Vec<Task>)
    ensures
        tasks_view(r@) == without_task(tasks_view(ts@), id),
{
    let mut r: Vec<Task> = Vec::new();
    let mut i: usize = 0;
    while i < ts.len()
        invariant
            0 <= i <= ts@.len(),
            tasks_view(r@) == without_task(tasks_view(ts@.subrange(0, i as int)), id),
        decreases ts@.len() - i,
    {
        let ghost before = r@;
        proof {
            assert(tasks_view(ts@.subrange(0, i + 1)) =~= tasks_view(
                ts@.subrange(0, i as int),
            ).push(ts@[i as int]@));
            tasks_view(ts@.subrange(0, i as int)).lemma_filter_push(
                ts@[i as int]@,
                task_id_is_not(id),
            );
        }
        if ts[i].task_id != id {
            r.push(ts[i].duplicate());
            proof {
                assert(tasks_view(r@) =~= tasks_view(before).push(ts@[i as int]@));
            }
        }
        i = i + 1;
    }
    proof {
        assert(ts@.subrange(0, i as int) =~= ts@);
    }
    r
}

/// The ids of `ids` other than `id`, in their order.
pub fn remove_id(ids: &Vec<TaskId>, id: TaskId) -> (r: Vec<TaskId>)
    ensures
        r@ == without_id(ids@, id),
{
    let mut r: Vec<TaskId> = Vec::new();
    let mut i: usize = 0;
    while i < ids.len()
        invariant
            0 <= i <= ids@.len(),
            r@ == without_id(ids@.subrange(0, i as int), id),
        decreases ids@.len() - i,
    {
        proof {
            assert(ids@.subrange(0, i + 1) =~= ids@.subrange(0, i as int).push(ids@[i as int]));
            ids@.subrange(0, i as int).lemma_filter_push(ids@[i as int], id_is_not(id));
        }
        if ids[i] != id {
            r.push(ids[i]);
        }
        i = i + 1;
    }
    proof {
        assert(ids@.subrange(0, i as int) =~= ids@);
    }
    r
}

/// The ids of `ids` that some task of `ts` has, in their order.
pub fn retain_known(ids: &Vec<TaskId>, ts: &Vec<Task>) -> (r: Vec<TaskId>)
    ensures
        r@ == ids@.filter(id_in(tasks_view(ts@))),
{
    let ghost keep = id_in(tasks_view(ts@));
    let mut r: Vec<TaskId> = Vec::new();
    let mut i: usize = 0;
    while i < ids.len()
        invariant
            0 <= i <= ids@.len(),
            keep == id_in(tasks_view(ts@)),
            r@ == ids@.subrange(0, i as int).filter(keep),
        decreases ids@.len() - i,
    {
        proof {
            assert(ids@.subrange(0, i + 1) =~= ids@.subrange(0, i as int).push(ids@[i as int]));
            ids@.subrange(0, i as int).lemma_filter_push(ids@[i as int], keep);
        }
        if has_task_id(ts, ids[i]) {
            r.push(ids[i]);
        }
        i = i + 1;
    }
    proof {
        assert(ids@.subrange(0, i as int) =~= ids@);
    }
    r
}

} // verus!
