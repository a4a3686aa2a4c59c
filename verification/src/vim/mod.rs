//! Modal editing: what follows from what happens to editors.

pub mod editor_events;
pub mod state;
