use cardamom_chai::display::{is_shown, label, reschedule_messages, visible_tasks};
use cardamom_chai::model::{Model, Msg};
use cardamom_chai::task::{Filter, Task, TaskState};

fn task(id: u128, text: &str, done: bool, state: TaskState) -> Task {
    Task::new(id, text.to_string(), done, state)
}

#[test]
fn filters_select_by_state_and_done() {
    let chosen = task(1, "a", false, TaskState::Chosen);
    let uncertain = task(2, "b", false, TaskState::Uncertain);
    let finished = task(3, "c", true, TaskState::Normal);
    assert!(is_shown(&finished, Filter::All, ""));
    assert!(is_shown(&chosen, Filter::Active, ""));
    assert!(!is_shown(&uncertain, Filter::Active, ""));
    assert!(is_shown(&uncertain, Filter::Uncertain, ""));
    assert!(!is_shown(&chosen, Filter::Uncertain, ""));
    assert!(is_shown(&chosen, Filter::Pending, ""));
    assert!(!is_shown(&finished, Filter::Pending, ""));
    assert!(is_shown(&finished, Filter::Done, ""));
    assert!(!is_shown(&chosen, Filter::Done, ""));
}

#[test]
fn search_ignores_case_and_sentinel() {
    let t = task(1, "Elaichi Chai", false, TaskState::Normal);
    assert!(is_shown(&t, Filter::Search, "/ec"));
    assert!(is_shown(&t, Filter::Search, "/EC"));
    assert!(is_shown(&t, Filter::Search, "//chai"));
    assert!(!is_shown(&t, Filter::Search, "/ce"));
    assert!(!is_shown(&t, Filter::Search, "/"));
    assert!(!is_shown(&t, Filter::Search, ""));
}

#[test]
fn visible_tasks_keeps_creation_order() {
    let mut m = Model::new();
    m.tasks = vec![
        task(1, "green tea", false, TaskState::Normal),
        task(2, "coffee", true, TaskState::Normal),
        task(3, "ginger tea", false, TaskState::Chosen),
    ];
    m.filter = Filter::Search;
    m.add_task_text_box = "/tea".to_string();
    let shown = visible_tasks(&m);
    assert_eq!(shown, vec![task(1, "green tea", false, TaskState::Normal), task(3, "ginger tea", false, TaskState::Chosen)]);
    m.filter = Filter::Done;
    assert_eq!(visible_tasks(&m), vec![task(2, "coffee", true, TaskState::Normal)]);
    m.filter = Filter::All;
    assert_eq!(visible_tasks(&m).len(), 3);
}

#[test]
fn labels_hide_recurring_marker_and_show_doubt() {
    assert_eq!(label(&task(1, "water plants*", false, TaskState::Chosen)), "water plants");
    assert_eq!(label(&task(1, "call", false, TaskState::Uncertain)), "call?");
    assert_eq!(label(&task(1, "call", true, TaskState::Uncertain)), "call");
    assert_eq!(label(&task(1, "tea", false, TaskState::Normal)), "tea");
}

#[test]
fn recurring_task_reschedules_as_chosen() {
    let t = task(4, "water plants*", true, TaskState::Chosen);
    assert_eq!(
        reschedule_messages(&t),
        vec![Msg::RescheduleActive("water plants*".to_string()), Msg::CycleTaskState(4)]
    );
    let t = task(5, "call mum", true, TaskState::Normal);
    assert_eq!(reschedule_messages(&t), vec![Msg::Reschedule("call mum".to_string())]);
}
