//! Rustisaur standard library: string utilities, the Guardian security
//! firewalls, the in-memory cache store and supporting logic.

pub mod clock;
pub mod fs;
pub mod guardian;
pub mod http;
pub mod net;
pub mod string;
pub mod store;
pub mod strlist;
pub mod text;
pub mod utils;
pub mod websocket;

