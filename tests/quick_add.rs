use cardamom_chai::quick_add::{classify, parse};
use cardamom_chai::task::TaskState;

#[test]
fn bang_marks_chosen_and_is_stripped() {
    assert_eq!(parse("buy milk!"), ("buy milk".to_string(), TaskState::Chosen));
}

#[test]
fn question_mark_marks_uncertain_and_is_stripped() {
    assert_eq!(parse("maybe call?"), ("maybe call".to_string(), TaskState::Uncertain));
}

#[test]
fn star_marks_chosen_and_is_kept() {
    assert_eq!(parse("water plants*"), ("water plants*".to_string(), TaskState::Chosen));
}

#[test]
fn plain_text_is_normal() {
    assert_eq!(parse("plain task"), ("plain task".to_string(), TaskState::Normal));
}

#[test]
fn input_is_trimmed_first() {
    assert_eq!(parse("  buy milk!  "), ("buy milk".to_string(), TaskState::Chosen));
    assert_eq!(parse("\tplain\n"), ("plain".to_string(), TaskState::Normal));
    assert_eq!(parse("   "), ("".to_string(), TaskState::Normal));
}

#[test]
fn only_the_outermost_marker_counts() {
    assert_eq!(parse("what!?"), ("what!".to_string(), TaskState::Uncertain));
    assert_eq!(parse("what?!"), ("what?".to_string(), TaskState::Chosen));
    assert_eq!(parse("tea*!"), ("tea*".to_string(), TaskState::Chosen));
}

#[test]
fn repeated_markers_are_all_stripped() {
    assert_eq!(parse("really??"), ("really".to_string(), TaskState::Uncertain));
    assert_eq!(parse("now!!!"), ("now".to_string(), TaskState::Chosen));
    assert_eq!(parse("?"), ("".to_string(), TaskState::Uncertain));
}

#[test]
fn markers_inside_the_text_are_ignored() {
    assert_eq!(parse("why? because"), ("why? because".to_string(), TaskState::Normal));
}

#[test]
fn classify_does_not_trim() {
    assert_eq!(classify(" tea! "), (" tea! ".to_string(), TaskState::Normal));
    assert_eq!(classify(" tea !"), (" tea ".to_string(), TaskState::Chosen));
}
