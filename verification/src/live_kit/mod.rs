//! Video rooms.

pub mod room;
