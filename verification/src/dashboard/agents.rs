//! The dashboard's agent endpoints: which agents take commands, which
//! events an agent may report, and what a relayed heartbeat answers.
use vstd::prelude::*;
use crate::dashboard::access::{heartbeat_status, heartbeat_status_spec, HeartbeatReply};
use crate::dashboard::error::{AppError, Result};
use crate::text::str_eq;

verus! {

/// The API port of an agent that registers without one.
pub const DEFAULT_AGENT_API_PORT: i32 = 9090;

/// The API port an agent registers with.
pub fn agent_api_port(requested: Option<i32>) -> (r: i32)
    ensures
        r == match requested {
            Some(p) => p,
            None => DEFAULT_AGENT_API_PORT,
        },
{
    match requested {
        Some(p) => p,
        None => DEFAULT_AGENT_API_PORT,
    }
}

/// Commands are relayed only to agents that are neither in lockdown nor
/// offline.
pub fn check_agent_reachable(status: &str) -> (r: Result<()>)
    ensures
        match r {
            Ok(()) => status@ != "lockdown"@ && status@ != "offline"@,
            Err(AppError::AgentUnavailable) => status@ == "lockdown"@ || status@ == "offline"@,
            Err(_) => false,
        },
{
    if str_eq(status, "lockdown") || str_eq(status, "offline") {
        Err(AppError::AgentUnavailable)
    } else {
        Ok(())
    }
}

/// The permission a relayed command is signed with: the one it names,
/// `read` otherwise.
pub fn command_permission(permission: Option<&str>) -> (r: String)
    ensures
        r@ == match permission {
            Some(p) => p@,
            None => "read"@,
        },
{
    match permission {
        Some(p) => p.to_string(),
        None => "read".to_string(),
    }
}

/// The events an agent may report.
pub open spec fn known_event(e: Seq<char>) -> bool {
    ||| e == "connected"@
    ||| e == "disconnected"@
    ||| e == "lockdown"@
    ||| e == "heartbeat_lost"@
    ||| e == "update_applied"@
    ||| e == "nftables_divergence"@
    ||| e == "bootstrap_completed"@
}

/// An event report must name a known event.
pub fn check_agent_event(event: Option<&str>) -> (r: Result<()>)
    ensures
        match r {
            Ok(()) => event matches Some(e) && known_event(e@),
            Err(AppError::BadRequest(m)) => match event {
                None => m@ == "event field required"@,
                Some(e) => !known_event(e@) && m@ == "unknown event type"@,
            },
            Err(_) => false,
        },
{
    let e = match event {
        Some(e) => e,
        None => return Err(AppError::BadRequest("event field required".to_string())),
    };
    if str_eq(e, "connected") || str_eq(e, "disconnected") || str_eq(e, "lockdown") || str_eq(e, "heartbeat_lost")
        || str_eq(e, "update_applied") || str_eq(e, "nftables_divergence") || str_eq(e, "bootstrap_completed") {
        Ok(())
    } else {
        Err(AppError::BadRequest("unknown event type".to_string()))
    }
}

/// A heartbeat relayed on request: the agent's new status, and the answer
/// (no content when it answered with success, a bad gateway otherwise).
pub fn relay_heartbeat_outcome(reply: HeartbeatReply) -> (r: (&'static str, Result<()>))
    ensures
        r.0@ == heartbeat_status_spec(reply),
        match r.1 {
            Ok(()) => reply == HeartbeatReply::Success,
            Err(AppError::BadGateway) => reply != HeartbeatReply::Success,
            Err(_) => false,
        },
{
    let status = heartbeat_status(reply);
    match reply {
        HeartbeatReply::Success => (status, Ok(())),
        _ => (status, Err(AppError::BadGateway)),
    }
}

} // verus!
