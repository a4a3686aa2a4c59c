//! The decision-making core of a collaborative code editor.

pub mod client;
pub mod collab;
pub mod elements;
pub mod git;
pub mod installation;
pub mod language;
pub mod live_kit;
pub mod sequences;
pub mod strings;
pub mod text;
pub mod vim;
