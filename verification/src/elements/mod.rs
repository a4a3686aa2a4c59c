//! Elements that wrap other elements.

pub mod hook;
