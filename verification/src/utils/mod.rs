//! Small utilities for strings, tables and numbers.

pub mod math;
pub mod string;
pub mod table;
