//! WebSocket client state.

pub mod client;
