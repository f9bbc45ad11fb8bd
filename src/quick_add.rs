//! The quick-add shorthand: a trailing `?`, `!` or `*` on the typed text sets a
//! new task's classification.
use vstd::prelude::*;
use crate::task::TaskState;
use crate::text::{
    ends_with, ends_with_char, strip_end_char, trim_end_char, trim_of, trim_text,
};

verus! {

/// The text and classification of a new task typed as `t`, already trimmed.
/// Only the last character is looked at, in this order: `?` makes the task
/// uncertain and `!` chosen, each with all its trailing copies removed; `*`
/// makes it chosen and stays in the text as the mark of a recurring task.
pub open spec fn classified(t: Seq<char>) -> (Seq<char>, TaskState) {
    if ends_with(t, '?') {
        (trim_end_char(t, '?'), TaskState::Uncertain)
    } else if ends_with(t, '!') {
        (trim_end_char(t, '!'), TaskState::Chosen)
    } else if ends_with(t, '*') {
        (t, TaskState::Chosen)
    } else {
        (t, TaskState::Normal)
    }
}

/// The text and classification of a new task typed as `raw`.
pub open spec fn parsed(raw: Seq<char>) -> (Seq<char>, TaskState) {
    classified(trim_of(raw))
}

/// Reads the quick-add marker off text that is already trimmed.
pub fn classify(text: &str) -> (r: (String, TaskState))
    ensures
        (r.0@, r.1) == classified(text@),
{
    if ends_with_char(text, '?') {
        (strip_end_char(text, '?'), TaskState::Uncertain)
    } else if ends_with_char(text, '!') {
        (strip_end_char(text, '!'), TaskState::Chosen)
    } else if ends_with_char(text, '*') {
        (String::from_str(text), TaskState::Chosen)
    } else {
        (String::from_str(text), TaskState::Normal)
    }
}

/// The text and classification of a new task typed as `raw`: the text is
/// trimmed, then its quick-add marker is read.
pub fn parse(raw: &str) -> (r: (String, TaskState))
    ensures
        (r.0@, r.1) == parsed(raw@),
{
    classify(trim_text(raw))
}

} // verus!
