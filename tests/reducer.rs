use cardamom_chai::model::{Cmd, Model, Msg};
use cardamom_chai::reducer::{init, update, update_with_id};
use cardamom_chai::task::{cycle_state, Filter, Task, TaskState};

fn task(id: u128, text: &str, done: bool, state: TaskState) -> Task {
    Task::new(id, text.to_string(), done, state)
}

fn model_with(tasks: Vec<Task>) -> Model {
    let mut m = Model::new();
    m.tasks = tasks;
    m
}

#[test]
fn init_starts_empty_and_loads() {
    let (m, cmds) = init();
    assert_eq!(m, Model::new());
    assert_eq!(Model::default(), Model::new());
    assert_eq!(m.filter, Filter::All);
    assert!(m.tasks.is_empty() && m.edit_tasks.is_empty() && m.add_task_text_box.is_empty());
    assert_eq!(cmds, vec![Cmd::Load]);
}

#[test]
fn add_appends_parsed_task_and_writes() {
    let mut m = model_with(vec![task(1, "old", false, TaskState::Normal)]);
    m.add_task_text_box = "  buy milk! ".to_string();
    let (m, cmd) = update_with_id(m, Msg::Add, 7);
    let expected = vec![
        task(1, "old", false, TaskState::Normal),
        task(7, "buy milk", false, TaskState::Chosen),
    ];
    assert_eq!(m.tasks, expected);
    assert_eq!(m.add_task_text_box, "");
    assert_eq!(cmd, Some(Cmd::Write(expected)));
}

#[test]
fn add_while_searching_is_a_no_op() {
    let mut m = model_with(vec![task(1, "chai", false, TaskState::Normal)]);
    m.add_task_text_box = "/chai".to_string();
    m.filter = Filter::Search;
    let before = m.clone();
    let (m, cmd) = update_with_id(m, Msg::Add, 9);
    assert_eq!(m, before);
    assert_eq!(cmd, None);
}

#[test]
fn text_input_enters_and_leaves_search() {
    let m = Model::new();
    let (m, cmd) = update_with_id(m, Msg::TextInput("/coffee".to_string()), 0);
    assert_eq!(m.filter, Filter::Search);
    assert_eq!(m.add_task_text_box, "/coffee");
    assert_eq!(cmd, None);
    let (m, _) = update_with_id(m, Msg::TextInput("/cof".to_string()), 0);
    assert_eq!(m.filter, Filter::Search);
    let (m, cmd) = update_with_id(m, Msg::TextInput("".to_string()), 0);
    assert_eq!(m.filter, Filter::All);
    assert_eq!(cmd, None);
}

#[test]
fn text_input_without_sentinel_keeps_filter() {
    let mut m = Model::new();
    m.filter = Filter::Done;
    let (m, _) = update_with_id(m, Msg::TextInput("tea".to_string()), 0);
    assert_eq!(m.filter, Filter::Done);
    let (m, _) = update_with_id(m, Msg::TextInput("".to_string()), 0);
    assert_eq!(m.filter, Filter::Done);
    let (m, _) = update_with_id(m, Msg::TextInput("/x".to_string()), 0);
    assert_eq!(m.filter, Filter::Search);
}

#[test]
fn cycling_three_times_restores_state() {
    for s in [TaskState::Normal, TaskState::Chosen, TaskState::Uncertain] {
        let m = model_with(vec![task(5, "t", false, s)]);
        let (m, _) = update_with_id(m, Msg::CycleTaskState(5), 0);
        let (m, _) = update_with_id(m, Msg::CycleTaskState(5), 0);
        let (m, cmd) = update_with_id(m, Msg::CycleTaskState(5), 0);
        assert_eq!(m.tasks, vec![task(5, "t", false, s)]);
        assert_eq!(cmd, Some(Cmd::Write(vec![task(5, "t", false, s)])));
    }
}

#[test]
fn cycling_follows_the_ring() {
    assert_eq!(cycle_state(false, TaskState::Normal), TaskState::Chosen);
    assert_eq!(cycle_state(false, TaskState::Chosen), TaskState::Uncertain);
    assert_eq!(cycle_state(false, TaskState::Uncertain), TaskState::Normal);
}

#[test]
fn cycling_a_done_task_makes_it_normal() {
    for s in [TaskState::Normal, TaskState::Chosen, TaskState::Uncertain] {
        assert_eq!(cycle_state(true, s), TaskState::Normal);
        let m = model_with(vec![task(5, "t", true, s)]);
        let (m, _) = update_with_id(m, Msg::CycleTaskState(5), 0);
        assert_eq!(m.tasks[0].state, TaskState::Normal);
    }
}

#[test]
fn delete_removes_task_and_edit_mode() {
    let m = model_with(vec![
        task(1, "a", false, TaskState::Normal),
        task(2, "b", true, TaskState::Chosen),
    ]);
    let (m, _) = update_with_id(m, Msg::Edit(2), 0);
    let (m, _) = update_with_id(m, Msg::Edit(1), 0);
    assert_eq!(m.edit_tasks, vec![2, 1]);
    let (m, cmd) = update_with_id(m, Msg::Delete(2), 0);
    assert_eq!(m.tasks, vec![task(1, "a", false, TaskState::Normal)]);
    assert_eq!(m.edit_tasks, vec![1]);
    assert_eq!(cmd, Some(Cmd::Write(vec![task(1, "a", false, TaskState::Normal)])));
}

#[test]
fn delete_unknown_id_leaves_model_unchanged() {
    let mut m = model_with(vec![task(1, "a", false, TaskState::Normal)]);
    m.edit_tasks = vec![1];
    m.add_task_text_box = "draft".to_string();
    let before = m.clone();
    let (m, cmd) = update_with_id(m, Msg::Delete(99), 0);
    assert_eq!(m, before);
    assert_eq!(cmd, Some(Cmd::Write(before.tasks.clone())));
}

#[test]
fn checkbox_sets_done() {
    let m = model_with(vec![task(1, "a", false, TaskState::Chosen), task(2, "b", false, TaskState::Normal)]);
    let (m, cmd) = update_with_id(m, Msg::CheckBox(2, true), 0);
    let expected = vec![task(1, "a", false, TaskState::Chosen), task(2, "b", true, TaskState::Normal)];
    assert_eq!(m.tasks, expected);
    assert_eq!(cmd, Some(Cmd::Write(expected)));
    let (m, _) = update_with_id(m, Msg::CheckBox(2, false), 0);
    assert!(!m.tasks[1].done);
}

#[test]
fn unknown_ids_are_ignored() {
    let m = model_with(vec![task(1, "a", false, TaskState::Normal)]);
    let before = m.clone();
    let (m, _) = update_with_id(m, Msg::CheckBox(3, true), 0);
    let (m, _) = update_with_id(m, Msg::CycleTaskState(3), 0);
    let (m, _) = update_with_id(m, Msg::Edit(3), 0);
    let (m, _) = update_with_id(m, Msg::EditInput(3, "x".to_string()), 0);
    let (m, _) = update_with_id(m, Msg::EditDone(3), 0);
    assert_eq!(m, before);
}

#[test]
fn reschedule_appends_fresh_tasks() {
    let m = model_with(vec![task(1, "tea*", true, TaskState::Chosen)]);
    let (m, cmd) = update_with_id(m, Msg::Reschedule("tea".to_string()), 2);
    assert_eq!(m.tasks[1], task(2, "tea", false, TaskState::Normal));
    assert_eq!(cmd, Some(Cmd::Write(m.tasks.clone())));
    let (m, cmd) = update_with_id(m, Msg::RescheduleActive("tea*".to_string()), 3);
    assert_eq!(m.tasks.len(), 3);
    assert_eq!(m.tasks[2], task(3, "tea*", false, TaskState::Chosen));
    assert_eq!(cmd, Some(Cmd::Write(m.tasks.clone())));
}

#[test]
fn set_filter_changes_only_filter() {
    let m = model_with(vec![task(1, "a", false, TaskState::Normal)]);
    let (m, cmd) = update_with_id(m, Msg::SetFilter(Filter::Pending), 0);
    assert_eq!(m.filter, Filter::Pending);
    assert_eq!(m.tasks.len(), 1);
    assert_eq!(cmd, None);
}

#[test]
fn edit_session_updates_text_then_writes() {
    let m = model_with(vec![task(1, "a", false, TaskState::Normal)]);
    let (m, cmd) = update_with_id(m, Msg::Edit(1), 0);
    assert_eq!(cmd, None);
    let (m, _) = update_with_id(m, Msg::Edit(1), 0);
    assert_eq!(m.edit_tasks, vec![1]);
    let (m, cmd) = update_with_id(m, Msg::EditInput(1, "ab".to_string()), 0);
    assert_eq!(cmd, None);
    assert_eq!(m.tasks[0].task_text, "ab");
    let (m, cmd) = update_with_id(m, Msg::EditDone(1), 0);
    assert!(m.edit_tasks.is_empty());
    assert_eq!(cmd, Some(Cmd::Write(vec![task(1, "ab", false, TaskState::Normal)])));
}

#[test]
fn loaded_tasks_replace_list_and_prune_edit_mode() {
    let mut m = model_with(vec![task(1, "a", false, TaskState::Normal), task(2, "b", false, TaskState::Normal)]);
    m.edit_tasks = vec![1, 2];
    let loaded = vec![task(2, "b2", true, TaskState::Uncertain), task(3, "c", false, TaskState::Chosen)];
    let (m, cmd) = update_with_id(m, Msg::LoadedTasks(loaded.clone()), 0);
    assert_eq!(m.tasks, loaded);
    assert_eq!(m.edit_tasks, vec![2]);
    assert_eq!(cmd, None);
}

#[test]
fn update_gives_new_tasks_distinct_ids() {
    let mut m = Model::new();
    m.add_task_text_box = "one".to_string();
    let (m, _) = update(m, Msg::Add);
    let (m, _) = update(m, Msg::Reschedule("two".to_string()));
    assert_eq!(m.tasks.len(), 2);
    assert_ne!(m.tasks[0].task_id, m.tasks[1].task_id);
    assert_eq!(m.tasks[0].task_text, "one");
    assert_eq!(m.tasks[1].task_text, "two");
    let id = m.tasks[0].task_id;
    assert_eq!((id >> 76) & 0xf, 4);
}
