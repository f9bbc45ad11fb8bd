//! The stored form of a task: one record per task, with the id written as a
//! hyphenated UUID and the classification by name. A record without a
//! classification, as older files have them, stands for a normal task.
use vstd::prelude::*;
use vstd::arithmetic::power::pow;
use crate::task::{tasks_view, Task, TaskId, TaskState, TaskView};

verus! {

/// A stored task, field for field as it is written out.
#[derive(Clone, Debug, PartialEq, Eq)]
pub struct TaskRecord {
    pub task_id: String,
    pub task_text: String,
    pub done: bool,
    pub state: Option<String>,
}

/// A stored task as a mathematical value.
pub struct TaskRecordView {
    pub task_id: Seq<char>,
    pub task_text: Seq<char>,
    pub done: bool,
    pub state: Option<Seq<char>>,
}

impl View for TaskRecord {
    type V = TaskRecordView;

    open spec fn view(&self) -> TaskRecordView {
        TaskRecordView {
            task_id: self.task_id@,
            task_text: self.task_text@,
            done: self.done,
            state: match self.state {
                Some(s) => Some(s@),
                None => None,
            },
        }
    }
}

/// The views of a sequence of records, one for one.
pub open spec fn records_view(rs: Seq<TaskRecord>) -> Seq<TaskRecordView> {
    rs.map_values(|r: TaskRecord| r@)
}

/// The lowercase hexadecimal digit for `n`, below 16.
pub open spec fn hex_digit(n: int) -> char {
    seq!['0', '1', '2', '3', '4', '5', '6', '7', '8', '9', 'a', 'b', 'c', 'd', 'e', 'f'][n]
}

/// The `k`-th hexadecimal digit of `v`, counted from the most significant.
pub open spec fn nibble(v: u128, k: int) -> int {
    (v as int / pow(16, (31 - k) as nat)) % 16
}

/// Which hexadecimal digit stands at position `i` of the hyphenated form.
pub open spec fn digit_at(i: int) -> int {
    if i < 8 {
        i
    } else if i < 13 {
        i - 1
    } else if i < 18 {
        i - 2
    } else if i < 23 {
        i - 3
    } else {
        i - 4
    }
}

/// The hyphenated form of `v`: its 32 lowercase hexadecimal digits, most
/// significant first, in groups of 8, 4, 4, 4 and 12 joined by `-`.
pub open spec fn hyphenated(v: u128) -> Seq<char> {
    Seq::new(
        36,
        |i: int|
            if i == 8 || i == 13 || i == 18 || i == 23 {
                '-'
            } else {
                hex_digit(nibble(v, digit_at(i)))
            },
    )
}

/// What `uuid::Uuid::parse_str` reads from a string, as a 128-bit value.
pub uninterp spec fn uuid_value_of(s: Seq<char>) -> Option<u128>;

/// Relies on `uuid::Uuid::from_u128` and the `Display` of
/// `uuid::fmt::Hyphenated`: the hyphenated lowercase form, which
/// `Uuid::parse_str` reads back to the same value.
#[verifier::external_body]
pub(crate) fn id_text(v: TaskId) -> (r: String)
    ensures
        r@ == hyphenated(v),
        uuid_value_of(r@) == Some(v),
{
    uuid::Uuid::from_u128(v).hyphenated().to_string()
}

/// Relies on `uuid::Uuid::parse_str` and `uuid::Uuid::as_u128`: the value of a
/// UUID in any of the forms the crate writes, or `None`.
#[verifier::external_body]
pub(crate) fn parse_id(s: &str) -> (r: Option<TaskId>)
    ensures
        r == uuid_value_of(s@),
{
    match uuid::Uuid::parse_str(s) {
        Ok(u) => Some(u.as_u128()),
        Err(_) => None,
    }
}

/// The stored name of a classification.
pub open spec fn state_name(s: TaskState) -> Seq<char> {
    match s {
        TaskState::Normal => "Normal"@,
        TaskState::Chosen => "Chosen"@,
        TaskState::Uncertain => "Uncertain"@,
    }
}

/// The classification that a stored name stands for; a missing name stands
/// for `Normal`, an unknown one for none.
pub open spec fn state_of(name: Option<Seq<char>>) -> Option<TaskState> {
    match name {
        None => Some(TaskState::Normal),
        Some(n) => if n == "Normal"@ {
            Some(TaskState::Normal)
        } else if n == "Chosen"@ {
            Some(TaskState::Chosen)
        } else if n == "Uncertain"@ {
            Some(TaskState::Uncertain)
        } else {
            None
        },
    }
}

/// The stored name of a classification.
pub fn state_text(s: TaskState) -> (r: String)
    ensures
        r@ == state_name(s),
{
    match s {
        TaskState::Normal => String::from_str("Normal"),
        TaskState::Chosen => String::from_str("Chosen"),
        TaskState::Uncertain => String::from_str("Uncertain"),
    }
}

/// The classification that a stored name stands for.
pub fn state_from_text(name: &Option<String>) -> (r: Option<TaskState>)
    ensures
        r == state_of(
            match name {
                Some(s) => Some(s@),
                None => None,
            },
        ),
{
    match name {
        None => Some(TaskState::Normal),
        Some(n) => {
            if *n == String::from_str("Normal") {
                Some(TaskState::Normal)
            } else if *n == String::from_str("Chosen") {
                Some(TaskState::Chosen)
            } else if *n == String::from_str("Uncertain") {
                Some(TaskState::Uncertain)
            } else {
                None
            }
        },
    }
}

/// The record that stores `t`.
pub open spec fn record_of(t: TaskView) -> TaskRecordView {
    TaskRecordView {
        task_id: hyphenated(t.task_id),
        task_text: t.task_text,
        done: t.done,
        state: Some(state_name(t.state)),
    }
}

/// The task that `r` stores, if its id and classification can be read.
pub open spec fn task_of(r: TaskRecordView) -> Option<TaskView> {
    match (uuid_value_of(r.task_id), state_of(r.state)) {
        (Some(id), Some(state)) => Some(
            TaskView { task_id: id, task_text: r.task_text, done: r.done, state },
        ),
        _ => None,
    }
}

/// `rs` are the records that store `ts`, and the id of each reads back as the
/// task's id.
pub open spec fn stores(rs: Seq<TaskRecordView>, ts: Seq<TaskView>) -> bool {
    &&& rs == ts.map_values(|t: TaskView| record_of(t))
    &&& forall|i: int| 0 <= i < rs.len() ==> uuid_value_of(#[trigger] rs[i].task_id) == Some(ts[i].task_id)
}

/// The tasks that a list of records stores: all of them if every record can
/// be read, and none if any cannot.
pub open spec fn tasks_of(rs: Seq<TaskRecordView>) -> Seq<TaskView> {
    if forall|i: int| 0 <= i < rs.len() ==> (#[trigger] task_of(rs[i])) is Some {
        rs.map_values(|r: TaskRecordView| task_of(r)->0)
    } else {
        Seq::empty()
    }
}

impl Task {
    /// The record that stores `self`.
    pub fn to_record(&self) -> (r: TaskRecord)
        ensures
            r@ == record_of(self@),
            uuid_value_of(r@.task_id) == Some(self.task_id),
    {
        TaskRecord {
            task_id: id_text(self.task_id),
            task_text: self.task_text.clone(),
            done: self.done,
            state: Some(state_text(self.state)),
        }
    }
}

impl TaskRecord {
    /// The task that this record stores, if its id and classification can be
    /// read.
    pub fn to_task(&self) -> (r: Option<Task>)
        ensures
            match r {
                Some(t) => task_of(self@) == Some(t@),
                None => task_of(self@) is None,
            },
    {
        let id = parse_id(self.task_id.as_str());
        let state = state_from_text(&self.state);
        match (id, state) {
            (Some(id), Some(state)) => Some(
                Task { task_id: id, task_text: self.task_text.clone(), done: self.done, state },
            ),
            _ => None,
        }
    }
}

/// The records that store a task list, one per task, in order.
pub fn tasks_to_records(ts: &Vec<Task>) -> (r: Vec<TaskRecord>)
    ensures
        stores(records_view(r@), tasks_view(ts@)),
{
    let mut r: Vec<TaskRecord> = Vec::new();
    let mut i: usize = 0;
    while i < ts.len()
        invariant
            0 <= i <= ts@.len(),
            r@.len() == i,
            forall|k: int| 0 <= k < i ==> (#[trigger] r@[k])@ == record_of(ts@[k]@),
            forall|k: int| 0 <= k < i ==> uuid_value_of((#[trigger] r@[k])@.task_id) == Some(ts@[k].task_id),
        decreases ts@.len() - i,
    {
        r.push(ts[i].to_record());
        i = i + 1;
    }
    proof {
        assert(records_view(r@) =~= tasks_view(ts@).map_values(|t: TaskView| record_of(t)));
    }
    r
}

/// The task list that a list of records stores: every task if every record
/// can be read, else an empty list.
pub fn tasks_from_records(rs: &Vec<TaskRecord>) -> (r: Vec<Task>)
    ensures
        tasks_view(r@) == tasks_of(records_view(rs@)),
{
    let ghost rv = records_view(rs@);
    let mut r: Vec<Task> = Vec::new();
    let mut i: usize = 0;
    while i < rs.len()
        invariant
            0 <= i <= rs@.len(),
            rv == records_view(rs@),
            r@.len() == i,
            forall|k: int| 0 <= k < i ==> task_of(#[trigger] rv[k]) == Some(r@[k]@),
        decreases rs@.len() - i,
    {
        match rs[i].to_task() {
            Some(t) => {
                r.push(t);
            },
            None => {
                proof {
                    assert(task_of(rv[i as int]) is None);
                }
                return Vec::new();
            },
        }
        i = i + 1;
    }
    proof {
        assert forall|k: int| 0 <= k < rv.len() implies (#[trigger] task_of(rv[k])) is Some by {}
        assert(tasks_view(r@) =~= rv.map_values(|x: TaskRecordView| task_of(x)->0));
    }
    r
}

/// Writing tasks as records and reading the records back gives every task
/// again, field for field.
pub proof fn lemma_records_round_trip(ts: Seq<TaskView>, rs: Seq<TaskRecordView>)
    requires
        stores(rs, ts),
    ensures
        tasks_of(rs) == ts,
{
    reveal_strlit("Normal");
    reveal_strlit("Chosen");
    reveal_strlit("Uncertain");
    assert forall|i: int| 0 <= i < rs.len() implies #[trigger] task_of(rs[i]) == Some(ts[i]) by {
        let t = ts[i];
        assert(rs[i] == record_of(t));
        assert(uuid_value_of(rs[i].task_id) == Some(t.task_id));
        match t.state {
            TaskState::Normal => {},
            TaskState::Chosen => {
                assert("Chosen"@[0] != "Normal"@[0]);
            },
            TaskState::Uncertain => {
                assert("Uncertain"@.len() != "Normal"@.len());
                assert("Uncertain"@.len() != "Chosen"@.len());
            },
        }
    }
    assert(tasks_of(rs) =~= ts);
}

/// A record without a classification reads as the same record with `Normal`
/// written out.
pub proof fn lemma_missing_state_is_normal(r: TaskRecordView)
    requires
        r.state is None,
    ensures
        task_of(r) == task_of(
            TaskRecordView {
                task_id: r.task_id,
                task_text: r.task_text,
                done: r.done,
                state: Some(state_name(TaskState::Normal)),
            },
        ),
        task_of(r) matches Some(t) ==> t.state == TaskState::Normal,
{
}

} // verus!
