//! Languages: their grammars, queries, servers and settings.

pub mod adapter;
pub mod config;
pub mod grammar;
pub mod highlight;
pub mod label;
pub mod language;
pub mod lsp;
pub mod paths;
pub mod query;
pub mod registry;
pub mod server_binary;
