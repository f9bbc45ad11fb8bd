//! A small task-list manager: the task model, the quick-add shorthand, the
//! fuzzy search predicate, the persisted record format and the reducer that
//! turns messages into new models and persistence commands.

pub mod text;
pub mod fuzzy;
pub mod task;
pub mod quick_add;
pub mod model;
pub mod seq_facts;
pub mod task_list;
pub mod reducer;
pub mod display;
pub mod record;
