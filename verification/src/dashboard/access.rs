//! Access decisions of the dashboard: request throttling, client
//! identification, the bootstrap setup token, token-gated agent and
//! migration endpoints, and how agents' heartbeats are read.
use vstd::prelude::*;
use crate::agent::auth::ct_eq;
use crate::dashboard::error::{AppError, Result};
use crate::dashboard::hash::{hex_spec, sha256_hex, sha256_spec};
use crate::text::{chars_of, find_char, find_char_exec, slice_chars, starts_with, starts_with_exec, str_eq, string_of, trim, trim_chars};
use vstd::utf8::encode_utf8;

verus! {

// ---------------------------------------------------------------------------
// Throttling
// ---------------------------------------------------------------------------

/// What is throttled, per client address.
#[derive(Debug, Clone, Copy, PartialEq, Eq)]
pub enum RateLimit {
    /// Five logins per 15 minutes.
    Login,
    /// Three registrations per hour.
    Register,
}

impl RateLimit {
    pub open spec fn limit_view(self) -> i64 {
        match self {
            RateLimit::Login => 5,
            RateLimit::Register => 3,
        }
    }

    /// The window, in seconds.
    pub open spec fn window_view(self) -> i64 {
        match self {
            RateLimit::Login => 900,
            RateLimit::Register => 3600,
        }
    }

    pub open spec fn prefix_view(self) -> Seq<char> {
        match self {
            RateLimit::Login => "rl:login:"@,
            RateLimit::Register => "rl:register:"@,
        }
    }

    pub fn limit(&self) -> (r: i64)
        ensures
            r == self.limit_view(),
    {
        match self {
            RateLimit::Login => 5,
            RateLimit::Register => 3,
        }
    }

    pub fn window(&self) -> (r: i64)
        ensures
            r == self.window_view(),
    {
        match self {
            RateLimit::Login => 900,
            RateLimit::Register => 3600,
        }
    }

    /// The counter key of client `ip`.
    pub fn key(&self, ip: &str) -> (r: String)
        ensures
            r@ == self.prefix_view() + ip@,
    {
        let mut k = match self {
            RateLimit::Login => "rl:login:".to_string(),
            RateLimit::Register => "rl:register:".to_string(),
        };
        k.append(ip);
        k
    }
}

/// The first increment of a counter starts its window: that is when its
/// expiry is set.
pub fn starts_window(count: i64) -> (r: bool)
    ensures
        r == (count == 1),
{
    count == 1
}

/// The outcome of a login's credential check: it goes on only when the user
/// exists and the password matches; an unknown user and a wrong password
/// get the same answer.
pub fn login_outcome(user_found: bool, password_ok: bool) -> (r: Result<()>)
    ensures
        match r {
            Ok(()) => user_found && password_ok,
            Err(AppError::InvalidCredentials) => !(user_found && password_ok),
            Err(_) => false,
        },
{
    if user_found && password_ok {
        Ok(())
    } else {
        Err(AppError::InvalidCredentials)
    }
}

/// After a client's counter reached `count`: refused once over the limit,
/// retry after the counter's remaining time `ttl` when positive, else after
/// a whole window.
pub fn rate_limit_verdict(kind: RateLimit, count: i64, ttl: i64) -> (r: Result<()>)
    ensures
        match r {
            Ok(()) => count <= kind.limit_view(),
            Err(AppError::RateLimited { retry_after }) => count > kind.limit_view()
                && retry_after == (if ttl > 0 { ttl } else { kind.window_view() }),
            Err(_) => false,
        },
{
    if count > kind.limit() {
        let retry: u64 = if ttl > 0 { ttl as u64 } else { kind.window() as u64 };
        return Err(AppError::RateLimited { retry_after: retry });
    }
    Ok(())
}

// ---------------------------------------------------------------------------
// Client identification
// ---------------------------------------------------------------------------

/// The client address a proxy header names: its first comma-separated
/// entry, trimmed.
pub open spec fn forwarded_client_spec(v: Seq<char>) -> Seq<char> {
    match find_char(v, ',') {
        Some(i) => trim(v.take(i)),
        None => trim(v),
    }
}

pub fn forwarded_client(value: &str) -> (r: String)
    ensures
        r@ == forwarded_client_spec(value@),
{
    let v = chars_of(value);
    let first = match find_char_exec(v.as_slice(), ',') {
        Some(i) => {
            let p = slice_chars(v.as_slice(), 0, i);
            assert(p@ =~= v@.take(i as int));
            p
        },
        None => v,
    };
    string_of(trim_chars(first.as_slice()).as_slice())
}

pub const BEARER_PREFIX: &'static str = "Bearer ";

/// The token of an `Authorization: Bearer <token>` value.
pub fn bearer_token(value: &str) -> (r: Option<String>)
    ensures
        match r {
            Some(t) => starts_with(value@, BEARER_PREFIX@) && t@ == value@.skip(BEARER_PREFIX@.len() as int),
            None => !starts_with(value@, BEARER_PREFIX@),
        },
{
    strip_prefix(value, BEARER_PREFIX)
}

fn strip_prefix(value: &str, prefix: &str) -> (r: Option<String>)
    ensures
        match r {
            Some(t) => starts_with(value@, prefix@) && t@ == value@.skip(prefix@.len() as int),
            None => !starts_with(value@, prefix@),
        },
{
    let v = chars_of(value);
    let p = chars_of(prefix);
    if starts_with_exec(v.as_slice(), p.as_slice()) {
        let n = v.len();
        let rest = slice_chars(v.as_slice(), p.len(), n);
        assert(rest@ =~= value@.skip(prefix@.len() as int));
        Some(string_of(rest.as_slice()))
    } else {
        None
    }
}

// ---------------------------------------------------------------------------
// Registration
// ---------------------------------------------------------------------------

/// Microseconds in a day: how long a setup token stays usable.
pub const SETUP_TOKEN_TTL_MICROS: i64 = 86_400_000_000;

/// The first account can only be registered with the configured setup
/// token: the same bytes, and a token is configured.
pub fn setup_token_accepted(provided: Option<&str>, expected: Option<&str>) -> (r: bool)
    ensures
        r == (provided matches Some(p) && expected matches Some(e) && p@ == e@ && e@.len() > 0),
{
    let p = match provided {
        Some(p) => p.as_bytes(),
        None => "".as_bytes(),
    };
    let e = match expected {
        Some(e) => e.as_bytes(),
        None => "".as_bytes(),
    };
    proof {
        reveal_strlit("");
        if let Some(x) = provided {
            vstd::utf8::encode_utf8_decode_utf8(x@);
        }
        if let Some(x) = expected {
            vstd::utf8::encode_utf8_decode_utf8(x@);
        }
    }
    if p.len() == e.len() && e.len() > 0 {
        let ok = ct_eq(p, e);
        proof {
            if expected is Some && provided is None {
                assert(e@.len() > 0);
                assert(p@.len() == 0);
            }
        }
        ok
    } else {
        proof {
            if let (Some(x), Some(y)) = (provided, expected) {
                if x@ == y@ && y@.len() > 0 {
                    assert(encode_utf8(y@).len() > 0) by {
                        vstd::utf8::encode_utf8_decode_utf8(y@);
                    }
                }
            }
        }
        false
    }
}

/// The setup token works for a day after it was issued (`issued_at` and
/// `now` in microseconds); without a readable issue time it is not limited.
pub fn setup_window_open(issued_at: Option<i64>, now: i64) -> (r: bool)
    ensures
        r == match issued_at {
            Some(t) => now - t <= SETUP_TOKEN_TTL_MICROS,
            None => true,
        },
{
    match issued_at {
        Some(t) => (now as i128 - t as i128) <= SETUP_TOKEN_TTL_MICROS as i128,
        None => true,
    }
}

/// A username or email already in use refuses the registration, the
/// username being checked first.
pub fn registration_conflict(username_taken: bool, email_taken: bool) -> (r: Result<()>)
    ensures
        match r {
            Ok(()) => !username_taken && !email_taken,
            Err(AppError::Conflict(m)) => if username_taken {
                m@ == "username already taken"@
            } else {
                email_taken && m@ == "email already registered"@
            },
            Err(_) => false,
        },
{
    if username_taken {
        return Err(AppError::Conflict("username already taken".to_string()));
    }
    if email_taken {
        return Err(AppError::Conflict("email already registered".to_string()));
    }
    Ok(())
}

// ---------------------------------------------------------------------------
// Token-gated endpoints
// ---------------------------------------------------------------------------

/// Whether `provided` is the token whose hex SHA-256 is `stored_hash`
/// (compared in constant time).
pub fn token_matches_hash(provided: &str, stored_hash: &str) -> (r: bool)
    ensures
        r == (hex_spec(sha256_spec(encode_utf8(provided@))) == stored_hash@),
{
    let h = sha256_hex(provided.as_bytes());
    proof {
        vstd::utf8::encode_utf8_decode_utf8(h@);
        vstd::utf8::encode_utf8_decode_utf8(stored_hash@);
    }
    ct_eq(h.as_str().as_bytes(), stored_hash.as_bytes())
}

pub const MIGRATION_PREFIX: &'static str = "Migration ";
pub const NOT_PREPARING: &'static str = "target not in preparing state \u{2014} call /migration/prepare first";

/// The token of an `Authorization: Migration <token>` value (empty when the
/// value has another form).
pub fn migration_token(value: &str) -> (r: String)
    ensures
        r@ == (if starts_with(value@, MIGRATION_PREFIX@) { value@.skip(MIGRATION_PREFIX@.len() as int) } else { Seq::empty() }),
{
    match strip_prefix(value, MIGRATION_PREFIX) {
        Some(t) => t,
        None => String::new(),
    }
}

/// A migration dump is accepted with the token whose hash was stored when
/// the migration was prepared, and only while the target is preparing.
pub fn check_migration_receive(token: &str, stored_hash: Option<&str>, status: &str) -> (r: Result<()>)
    ensures
        match r {
            Ok(()) => stored_hash matches Some(h) && hex_spec(sha256_spec(encode_utf8(token@))) == h@
                && status@ == "preparing"@,
            Err(AppError::Unauthorized) => !(stored_hash matches Some(h) && hex_spec(sha256_spec(encode_utf8(token@))) == h@),
            Err(AppError::Validation(m)) => stored_hash matches Some(h) && hex_spec(sha256_spec(encode_utf8(token@))) == h@
                && status@ != "preparing"@ && m@ == NOT_PREPARING@,
            Err(_) => false,
        },
{
    let valid = match stored_hash {
        Some(h) => token_matches_hash(token, h),
        None => false,
    };
    if !valid {
        return Err(AppError::Unauthorized);
    }
    if !str_eq(status, "preparing") {
        return Err(AppError::Validation(NOT_PREPARING.to_string()));
    }
    Ok(())
}

// ---------------------------------------------------------------------------
// Agent heartbeats
// ---------------------------------------------------------------------------

/// How an agent answered a heartbeat poll.
#[derive(Debug, Clone, Copy, PartialEq, Eq)]
pub enum HeartbeatReply {
    /// A success status.
    Success,
    /// Another HTTP status.
    Status(u16),
    /// No answer.
    Unreachable,
}

/// The agent's status after a poll: online when it answered with success,
/// in lockdown when it answered 423, offline otherwise.
pub open spec fn heartbeat_status_spec(reply: HeartbeatReply) -> Seq<char> {
    match reply {
        HeartbeatReply::Success => "online"@,
        HeartbeatReply::Status(423) => "lockdown"@,
        _ => "offline"@,
    }
}

pub fn heartbeat_status(reply: HeartbeatReply) -> (r: &'static str)
    ensures
        r@ == heartbeat_status_spec(reply),
{
    match reply {
        HeartbeatReply::Success => "online",
        HeartbeatReply::Status(423) => "lockdown",
        _ => "offline",
    }
}

/// An online agent that reported a version other than the latest known
/// one is sent an update.
pub fn needs_agent_update(status: &str, reported: Option<&str>, latest: Option<&str>) -> (r: bool)
    ensures
        r == (status@ == "online"@ && match (reported, latest) {
            (Some(c), Some(t)) => c@ != t@,
            _ => false,
        }),
{
    if !str_eq(status, "online") {
        return false;
    }
    match (reported, latest) {
        (Some(c), Some(t)) => !str_eq(c, t),
        _ => false,
    }
}

/// The kinds of message an agent sends over its WebSocket.
#[derive(Debug, Clone, Copy, PartialEq, Eq)]
pub enum AgentMessageKind {
    Heartbeat,
    CommandResponse,
    Metrics,
    AuditSync,
    Other,
}

pub open spec fn agent_message_kind_spec(t: Seq<char>) -> AgentMessageKind {
    if t == "heartbeat"@ {
        AgentMessageKind::Heartbeat
    } else if t == "command_response"@ {
        AgentMessageKind::CommandResponse
    } else if t == "metrics"@ {
        AgentMessageKind::Metrics
    } else if t == "audit_sync"@ {
        AgentMessageKind::AuditSync
    } else {
        AgentMessageKind::Other
    }
}

/// The kind of an agent message of type `t`.
pub fn agent_message_kind(t: &str) -> (r: AgentMessageKind)
    ensures
        r == agent_message_kind_spec(t@),
{
    if str_eq(t, "heartbeat") {
        AgentMessageKind::Heartbeat
    } else if str_eq(t, "command_response") {
        AgentMessageKind::CommandResponse
    } else if str_eq(t, "metrics") {
        AgentMessageKind::Metrics
    } else if str_eq(t, "audit_sync") {
        AgentMessageKind::AuditSync
    } else {
        AgentMessageKind::Other
    }
}

/// The status a heartbeat message reports: `online` unless it says.
pub fn reported_status(status: Option<&str>) -> (r: String)
    ensures
        r@ == match status {
            Some(s) => s@,
            None => "online"@,
        },
{
    match status {
        Some(s) => s.to_string(),
        None => "online".to_string(),
    }
}

} // verus!
