//! Guardian - Multi-layer Security Firewall for Rustisaur
//!
//! Features:
//! - Network Firewall
//! - Database Firewall
//! - File System Firewall
//! - Secret Protection
//!
//! Every check is a step of a small state machine: it updates statistics
//! and logs, and where the owner must be asked on the console it returns
//! `NeedsApproval`; the caller asks and hands the answer back to the
//! firewall's `answer_*` method.

pub mod console;
pub mod database;
pub mod filesystem;
pub mod guardian_core;
pub mod network;
pub mod secrets;

pub use console::GuardianConsole;
pub use database::{DatabaseConfig, DatabaseFirewall, DatabaseQuery, QueryType};
pub use filesystem::{FileOpType, FileOperation, FileSystemConfig, FileSystemFirewall, FileSystemStats};
pub use guardian_core::{Guardian, GuardianConfig, GuardianStats};
pub use network::{NetworkConfig, NetworkFirewall, NetworkRequest};
