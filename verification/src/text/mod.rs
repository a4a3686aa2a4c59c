//! Buffers of text: their versions, the places in them, and how places follow edits.

pub mod buffer;
pub mod clock;
pub mod rows;
