use cardamom_chai::record::{state_from_text, state_text, tasks_from_records, tasks_to_records, TaskRecord};
use cardamom_chai::task::{Task, TaskState};

fn task(id: u128, text: &str, done: bool, state: TaskState) -> Task {
    Task::new(id, text.to_string(), done, state)
}

fn record(id: &str, text: &str, done: bool, state: Option<&str>) -> TaskRecord {
    TaskRecord {
        task_id: id.to_string(),
        task_text: text.to_string(),
        done,
        state: state.map(|s| s.to_string()),
    }
}

#[test]
fn ids_are_written_hyphenated_lowercase() {
    let t = task(0xa1a2a3a4b1b2c1c2d1d2d3d4d5d6d7d8, "chai", true, TaskState::Uncertain);
    let r = t.to_record();
    assert_eq!(r, record("a1a2a3a4-b1b2-c1c2-d1d2-d3d4d5d6d7d8", "chai", true, Some("Uncertain")));
    let z = task(0, "", false, TaskState::Normal).to_record();
    assert_eq!(z.task_id, "00000000-0000-0000-0000-000000000000");
    assert_eq!(z.state, Some("Normal".to_string()));
}

#[test]
fn records_round_trip() {
    let ts = vec![
        task(1, "a", false, TaskState::Normal),
        task(u128::MAX, "b \"quoted\"", true, TaskState::Chosen),
        task(0x550e8400e29b41d4a716446655440000, "", false, TaskState::Uncertain),
    ];
    let rs = tasks_to_records(&ts);
    assert_eq!(rs.len(), 3);
    assert_eq!(tasks_from_records(&rs), ts);
}

#[test]
fn missing_state_reads_as_normal() {
    let rs = vec![record("550e8400-e29b-41d4-a716-446655440000", "tea", true, None)];
    assert_eq!(
        tasks_from_records(&rs),
        vec![task(0x550e8400e29b41d4a716446655440000, "tea", true, TaskState::Normal)]
    );
}

#[test]
fn other_uuid_forms_are_read() {
    let rs = vec![
        record("550E8400E29B41D4A716446655440000", "a", false, Some("Chosen")),
        record("{550e8400-e29b-41d4-a716-446655440001}", "b", false, Some("Normal")),
        record("urn:uuid:550e8400-e29b-41d4-a716-446655440002", "c", false, None),
    ];
    let ts = tasks_from_records(&rs);
    assert_eq!(ts.len(), 3);
    assert_eq!(ts[0].task_id, 0x550e8400e29b41d4a716446655440000);
    assert_eq!(ts[1].task_id, 0x550e8400e29b41d4a716446655440001);
    assert_eq!(ts[2].task_id, 0x550e8400e29b41d4a716446655440002);
    assert_eq!(ts[0].state, TaskState::Chosen);
}

#[test]
fn a_bad_record_empties_the_list() {
    let good = record("550e8400-e29b-41d4-a716-446655440000", "a", false, None);
    let bad_id = record("not-a-uuid", "b", false, None);
    let bad_state = record("550e8400-e29b-41d4-a716-446655440001", "c", false, Some("Later"));
    assert!(tasks_from_records(&vec![good.clone(), bad_id]).is_empty());
    assert!(tasks_from_records(&vec![bad_state, good.clone()]).is_empty());
    assert_eq!(tasks_from_records(&vec![good]).len(), 1);
    assert!(tasks_from_records(&vec![]).is_empty());
}

#[test]
fn state_names() {
    assert_eq!(state_text(TaskState::Normal), "Normal");
    assert_eq!(state_text(TaskState::Chosen), "Chosen");
    assert_eq!(state_text(TaskState::Uncertain), "Uncertain");
    assert_eq!(state_from_text(&None), Some(TaskState::Normal));
    assert_eq!(state_from_text(&Some("Chosen".to_string())), Some(TaskState::Chosen));
    assert_eq!(state_from_text(&Some("chosen".to_string())), None);
}
