//! Verified core of the lynx container platform: the compose-file model and
//! its port, environment and dependency logic, firewall rule rendering,
//! credential validation and the cryptographic envelope helpers.

pub mod text;
pub mod error;
pub mod compose;
pub mod ports;
pub mod env_file;
pub mod graph;
pub mod dashboard;
pub mod agent;
pub mod kv;
pub mod copying;
pub mod project;
