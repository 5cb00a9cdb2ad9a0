//! Agent-side logic: request authentication, the host firewall ruleset,
//! tenant network commands, metrics parsing and command routing.

pub mod auth;
pub mod nftables;
pub mod commands;
pub mod podman;
pub mod metrics;
pub mod wireguard;
