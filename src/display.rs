//! What the view shows of the model: which tasks pass the filter, how a task
//! is labelled, and which messages its reschedule button sends.
use vstd::prelude::*;
use crate::fuzzy::{fuzzy_match, fuzzy_matches};
use crate::model::{Model, Msg, MsgView};
use crate::reducer::SEARCH_SENTINEL;
use crate::task::{tasks_view, Filter, Task, TaskState, TaskView};
use crate::text::{
    ends_with, ends_with_char, lower_of, strip_end_char, strip_start_char, to_lower,
    trim_end_char, trim_start_char,
};

verus! {

/// The search query held in the composer: its text without the leading
/// sentinels.
pub open spec fn search_query(composer: Seq<char>) -> Seq<char> {
    trim_start_char(composer, SEARCH_SENTINEL)
}

/// Whether the filter `f`, with `composer` as the composer's text, shows `t`.
/// A search compares the lowercase text of the task with the lowercase query.
pub open spec fn shown(t: TaskView, f: Filter, composer: Seq<char>) -> bool {
    match f {
        Filter::All => true,
        Filter::Active => t.state == TaskState::Chosen,
        Filter::Pending => !t.done,
        Filter::Uncertain => t.state == TaskState::Uncertain,
        Filter::Done => t.done,
        Filter::Search => fuzzy_matches(lower_of(t.task_text), lower_of(search_query(composer))),
    }
}

/// Holds of the tasks that the filter `f` shows.
pub open spec fn shown_by(f: Filter, composer: Seq<char>) -> spec_fn(TaskView) -> bool {
    |t: TaskView| shown(t, f, composer)
}

/// Whether the filter `f`, with `composer` as the composer's text, shows `t`.
pub fn is_shown(t: &Task, f: Filter, composer: &str) -> (r: bool)
    ensures
        r == shown(t@, f, composer@),
{
    match f {
        Filter::All => true,
        Filter::Active => t.state == TaskState::Chosen,
        Filter::Pending => !t.done,
        Filter::Uncertain => t.state == TaskState::Uncertain,
        Filter::Done => t.done,
        Filter::Search => {
            let text = to_lower(t.task_text.as_str());
            let query = strip_start_char(composer, SEARCH_SENTINEL);
            let query = to_lower(query.as_str());
            fuzzy_match(text.as_str(), query.as_str())
        },
    }
}

/// The tasks that the model's filter shows, in creation order.
pub fn visible_tasks(m: &Model) -> (r: Vec<Task>)
    ensures
        tasks_view(r@) == m@.tasks.filter(shown_by(m.filter, m.add_task_text_box@)),
{
    let ghost p = shown_by(m.filter, m.add_task_text_box@);
    let ts = &m.tasks;
    let mut r: Vec<Task> = Vec::new();
    let mut i: usize = 0;
    while i < ts.len()
        invariant
            0 <= i <= ts@.len(),
            ts == &m.tasks,
            p == shown_by(m.filter, m.add_task_text_box@),
            tasks_view(r@) == tasks_view(ts@.subrange(0, i as int)).filter(p),
        decreases ts@.len() - i,
    {
        let ghost before = r@;
        proof {
            assert(tasks_view(ts@.subrange(0, i + 1)) =~= tasks_view(
                ts@.subrange(0, i as int),
            ).push(ts@[i as int]@));
            tasks_view(ts@.subrange(0, i as int)).lemma_filter_push(ts@[i as int]@, p);
        }
        if is_shown(&ts[i], m.filter, m.add_task_text_box.as_str()) {
            r.push(ts[i].duplicate());
            proof {
                assert(tasks_view(r@) =~= tasks_view(before).push(ts@[i as int]@));
            }
        }
        i = i + 1;
    }
    proof {
        assert(ts@.subrange(0, i as int) =~= ts@);
    }
    r
}

/// Whether the task's text ends with the recurring marker `*`.
pub open spec fn recurring(t: TaskView) -> bool {
    ends_with(t.task_text, '*')
}

/// The label of a task: its text without the recurring markers, and with a
/// `?` when it is uncertain and not done.
pub open spec fn label_of(t: TaskView) -> Seq<char> {
    let base = trim_end_char(t.task_text, '*');
    if !t.done && t.state == TaskState::Uncertain {
        base.push('?')
    } else {
        base
    }
}

/// The label of a task.
pub fn label(t: &Task) -> (r: String)
    ensures
        r@ == label_of(t@),
{
    let base = strip_end_char(t.task_text.as_str(), '*');
    if !t.done && t.state == TaskState::Uncertain {
        let mark = "?";
        proof {
            reveal_strlit("?");
        }
        let r = base.concat(mark);
        proof {
            assert(r@ =~= trim_end_char(t.task_text@, '*').push('?'));
        }
        r
    } else {
        base
    }
}

/// The messages that rescheduling a completed task sends: a recurring task is
/// created again as chosen and the original is set back to normal; any other
/// is created again as normal.
pub open spec fn reschedule_of(t: TaskView) -> Seq<MsgView> {
    if recurring(t) {
        seq![MsgView::RescheduleActive(t.task_text), MsgView::CycleTaskState(t.task_id)]
    } else {
        seq![MsgView::Reschedule(t.task_text)]
    }
}

/// The views of a list of messages, one for one.
pub open spec fn msgs_view(ms: Seq<Msg>) -> Seq<MsgView> {
    ms.map_values(|m: Msg| m@)
}

/// The messages that rescheduling the completed task `t` sends.
pub fn reschedule_messages(t: &Task) -> (r: Vec<Msg>)
    ensures
        msgs_view(r@) == reschedule_of(t@),
{
    let r = if ends_with_char(t.task_text.as_str(), '*') {
        vec![Msg::RescheduleActive(t.task_text.clone()), Msg::CycleTaskState(t.task_id)]
    } else {
        vec![Msg::Reschedule(t.task_text.clone())]
    };
    proof {
        assert(msgs_view(r@) =~= reschedule_of(t@));
    }
    r
}

} // verus!
