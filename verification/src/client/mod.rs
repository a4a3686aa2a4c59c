//! The client's side of a connection.

pub mod fake_server;
