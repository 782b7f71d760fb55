//! HTTP serving and client decisions.

pub mod client;
pub mod server;
