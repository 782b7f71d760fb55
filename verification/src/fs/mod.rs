//! File system helpers.

pub mod path;
pub mod watch;
