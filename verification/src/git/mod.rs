//! What differs between a buffer and the text that was last committed.

pub mod diff;
pub mod patch;
