pub mod cache;
pub mod counter;
pub mod db;
