//! String utilities (`rex.string`).

pub mod functions;
pub mod script;
