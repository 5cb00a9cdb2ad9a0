//! Dashboard-side logic: request validation, firewall rule rendering, the
//! hashing and key-wrapping helpers, and the reverse-proxy configuration.

pub mod error;
pub mod validate;
pub mod nftables;
pub mod audit;
pub mod requests;
pub mod access;
pub mod pki;
pub mod nginx;
pub mod hash;
pub mod kek;
pub mod keys;
pub mod wg;
pub mod migration;
pub mod domain;
pub mod agents;
pub mod cli;
