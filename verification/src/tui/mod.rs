//! What the terminal dashboard shows, and what it makes of keys and events.

pub mod dashboard;
pub mod widgets;
