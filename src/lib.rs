//! Small verified building blocks: text-slice selection with borrowed
//! lifetimes, line-limited stream heads, byte/word/line counting, a quota
//! notifier, a workout planner, request routing, and reference-counted lists.

pub mod lifetimes;
pub mod wc;
pub mod head;
pub mod limit_tracker;
pub mod workout;
pub mod server;
pub mod rc_list;
