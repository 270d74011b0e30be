//! Session and event-routing engine of a remote shell client: the session
//! registry, the connect state machine, event routing, directory listings
//! and the file-sync decisions, with machine-checked contracts.

pub mod commands;
pub mod connection;
pub mod error;
pub mod sftp;
pub mod ssh;
pub mod text;
