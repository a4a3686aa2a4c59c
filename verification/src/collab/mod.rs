//! The server that lets people work together: what it sends to whom, in answer to what.

pub mod action;
pub mod activity;
pub mod buffers;
pub mod calls;
pub mod channels;
pub mod connection;
pub mod contacts;
pub mod error;
pub mod executor;
pub mod handling;
pub mod ids;
pub mod message;
pub mod moment;
pub mod plan;
pub mod projects;
pub mod protocol;
pub mod request;
pub mod response;
pub mod rooms;
pub mod server;
pub mod users;
