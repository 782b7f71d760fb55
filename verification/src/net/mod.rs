//! Network client types.

pub mod http;
