//! Requests of the dashboard's account and administration endpoints, and
//! the checks made on them before anything is changed.
use vstd::prelude::*;
use crate::dashboard::error::{AppError, Result};
use crate::text::{chars_of, str_eq, string_of};

verus! {

/// `POST /admin/rotate`: what to rotate, and why.
#[derive(Debug, Clone)]
pub struct RotateRequest {
    pub scope: String,
    pub reason: Option<String>,
}

/// What a rotation does.
#[derive(Debug, Clone, PartialEq, Eq)]
pub struct RotationPlan {
    /// Invalidate every session (new JWT keys).
    pub sessions: bool,
    /// Rotate the WireGuard pre-shared keys.
    pub wireguard_psks: bool,
    /// Reissue agent certificates.
    pub certificates: bool,
    /// The recorded reason.
    pub reason: String,
}

pub open spec fn valid_scope(s: Seq<char>) -> bool {
    s == "jwt_keys"@ || s == "wireguard_psks"@ || s == "all"@ || s == "certificates"@
}

pub open spec fn valid_reason(s: Seq<char>) -> bool {
    s == "manual"@ || s == "emergency"@ || s == "scheduled"@ || s == "update"@
}

/// The reason a rotation is recorded with: the given one, `manual` by default.
pub open spec fn rotation_reason(req: RotateRequest) -> Seq<char> {
    match req.reason {
        Some(r) => r@,
        None => "manual"@,
    }
}

/// A rotation request names a known scope and reason; the scope `all`
/// rotates everything, any other scope its own part.
pub fn rotation_plan(req: &RotateRequest) -> (r: Result<RotationPlan>)
    ensures
        match r {
            Ok(p) => {
                &&& valid_scope(req.scope@) && valid_reason(rotation_reason(*req))
                &&& p.sessions == (req.scope@ == "jwt_keys"@ || req.scope@ == "all"@)
                &&& p.wireguard_psks == (req.scope@ == "wireguard_psks"@ || req.scope@ == "all"@)
                &&& p.certificates == (req.scope@ == "certificates"@ || req.scope@ == "all"@)
                &&& p.reason@ == rotation_reason(*req)
            },
            Err(AppError::BadRequest(m)) => if !valid_scope(req.scope@) {
                m@ == "invalid scope"@
            } else {
                !valid_reason(rotation_reason(*req)) && m@ == "invalid reason"@
            },
            Err(_) => false,
        },
{
    let scope = req.scope.as_str();
    let is_jwt = str_eq(scope, "jwt_keys");
    let is_psk = str_eq(scope, "wireguard_psks");
    let is_all = str_eq(scope, "all");
    let is_cert = str_eq(scope, "certificates");
    if !(is_jwt || is_psk || is_all || is_cert) {
        return Err(AppError::BadRequest("invalid scope".to_string()));
    }
    let reason = match &req.reason {
        Some(r) => r.as_str(),
        None => "manual",
    };
    if !(str_eq(reason, "manual") || str_eq(reason, "emergency") || str_eq(reason, "scheduled") || str_eq(reason, "update")) {
        return Err(AppError::BadRequest("invalid reason".to_string()));
    }
    Ok(RotationPlan {
        sessions: is_jwt || is_all,
        wireguard_psks: is_psk || is_all,
        certificates: is_cert || is_all,
        reason: reason.to_string(),
    })
}

/// `POST /auth/me/preferences`.
#[derive(Debug, Clone)]
pub struct UpdatePreferencesRequest {
    pub theme: Option<String>,
    pub locale: Option<String>,
}

/// The reason a preferences update is refused, if it is.
pub open spec fn preferences_error(req: UpdatePreferencesRequest) -> Option<Seq<char>> {
    if req.theme matches Some(t) && !(t@ == "light"@ || t@ == "dark"@ || t@ == "system"@) {
        Some("theme must be light, dark, or system"@)
    } else if req.locale matches Some(l) && !(l@ == "en"@ || l@ == "es"@) {
        Some("unsupported locale"@)
    } else {
        None
    }
}

/// Checks a preferences update: a theme among light, dark and system, a
/// locale among the supported ones.
pub fn check_preferences(req: &UpdatePreferencesRequest) -> (r: Result<()>)
    ensures
        match r {
            Ok(()) => preferences_error(*req) is None,
            Err(AppError::Validation(m)) => preferences_error(*req) == Some(m@),
            Err(_) => false,
        },
{
    if let Some(t) = &req.theme {
        if !(str_eq(t.as_str(), "light") || str_eq(t.as_str(), "dark") || str_eq(t.as_str(), "system")) {
            return Err(AppError::Validation("theme must be light, dark, or system".to_string()));
        }
    }
    if let Some(l) = &req.locale {
        if !(str_eq(l.as_str(), "en") || str_eq(l.as_str(), "es")) {
            return Err(AppError::Validation("unsupported locale".to_string()));
        }
    }
    Ok(())
}

/// `POST /auth/me/password`.
#[derive(Debug, Clone)]
pub struct ChangePasswordRequest {
    pub current_password: String,
    pub new_password: String,
}

/// Query of the agents' WebSocket endpoint: the agent's sync token.
#[derive(Debug, Clone)]
pub struct WsQuery {
    pub token: String,
}

// ---------------------------------------------------------------------------
// Updates
// ---------------------------------------------------------------------------

pub const GITHUB_REPO: &'static str = "Jaro-c/Lynx";
pub const RELEASE_DOWNLOAD: &'static str = "https://github.com/Jaro-c/Lynx/releases/download/";
pub const AGENT_ASSET: &'static str = "/lynx-agent-linux-x86_64";
pub const SIGNATURE_SUFFIX: &'static str = ".sig";
pub const AGENT_TAG_PREFIX: &'static str = "agent@";

/// The release channel of an update when none is given.
pub fn default_channel() -> (r: String)
    ensures
        r@ == "stable"@,
{
    "stable".to_string()
}

/// Only the stable and edge channels exist.
pub fn check_channel(channel: &str) -> (r: Result<()>)
    ensures
        match r {
            Ok(()) => channel@ == "stable"@ || channel@ == "edge"@,
            Err(AppError::BadRequest(m)) => !(channel@ == "stable"@ || channel@ == "edge"@) && m@ == "invalid channel"@,
            Err(_) => false,
        },
{
    if str_eq(channel, "stable") || str_eq(channel, "edge") {
        Ok(())
    } else {
        Err(AppError::BadRequest("invalid channel".to_string()))
    }
}

/// The agent binary of the release tagged `tag`, and its signature.
pub open spec fn asset_urls_spec(tag: Seq<char>) -> (Seq<char>, Seq<char>) {
    (
        RELEASE_DOWNLOAD@ + tag + AGENT_ASSET@,
        RELEASE_DOWNLOAD@ + tag + AGENT_ASSET@ + SIGNATURE_SUFFIX@,
    )
}

/// Download and signature URLs of the agent binary released as `tag`.
pub fn release_asset_urls(tag: &str) -> (r: (String, String))
    ensures
        (r.0@, r.1@) == asset_urls_spec(tag@),
{
    let mut d = RELEASE_DOWNLOAD.to_string();
    d.append(tag);
    d.append(AGENT_ASSET);
    let mut s = d.clone();
    s.append(SIGNATURE_SUFFIX);
    (d, s)
}

/// Download and signature URLs of agent `version` as the heartbeat
/// scheduler names it (`agent@<version>` tags).
pub fn agent_release_asset_urls(version: &str) -> (r: (String, String))
    ensures
        (r.0@, r.1@) == asset_urls_spec(AGENT_TAG_PREFIX@ + version@),
{
    let mut tag = AGENT_TAG_PREFIX.to_string();
    tag.append(version);
    release_asset_urls(tag.as_str())
}

/// An agent endpoint: `http://<address>:<port><path>`.
pub open spec fn agent_url_spec(address: Seq<char>, port: i32, path: Seq<char>) -> Seq<char> {
    "http://"@ + address + ":"@ + crate::text::decimal_int(port as int) + path
}

pub fn agent_url(address: &str, port: i32, path: &str) -> (r: String)
    ensures
        r@ == agent_url_spec(address@, port, path@),
{
    let mut u = "http://".to_string();
    u.append(address);
    u.append(":");
    crate::text::push_int(&mut u, port as i64);
    u.append(path);
    u
}

/// `s` without its leading `v` characters.
pub open spec fn strip_leading_v(s: Seq<char>) -> Seq<char>
    decreases s.len(),
{
    if s.len() > 0 && s[0] == 'v' { strip_leading_v(s.drop_first()) } else { s }
}

/// The answer to an update check.
#[derive(Debug, Clone)]
pub struct UpdateCheckResponse {
    pub current_version: String,
    pub latest_version: String,
    pub update_available: bool,
    pub release_url: Option<String>,
}

/// Compares the running version with the latest release: its tag without
/// leading `v`s (the running version when the release names no tag); an
/// update is available when that differs and is not empty.
pub fn update_check_response(current: &str, tag_name: Option<&str>, html_url: Option<&str>) -> (r: UpdateCheckResponse)
    ensures
        r.current_version@ == current@,
        r.latest_version@ == strip_leading_v(match tag_name {
            Some(t) => t@,
            None => current@,
        }),
        r.update_available == (r.latest_version@ != current@ && r.latest_version@.len() > 0),
        match html_url {
            Some(u) => r.release_url matches Some(x) && x@ == u@,
            None => r.release_url is None,
        },
{
    let tag = match tag_name {
        Some(t) => t,
        None => current,
    };
    let v = chars_of(tag);
    let mut i: usize = 0;
    assert(v@.skip(0) =~= v@);
    while i < v.len() && v[i] == 'v'
        invariant
            i <= v@.len(),
            v@ == tag@,
            strip_leading_v(v@.skip(i as int)) == strip_leading_v(tag@),
        decreases v@.len() - i,
    {
        assert(v@.skip(i as int).drop_first() =~= v@.skip(i + 1));
        i = i + 1;
    }
    let n = v.len();
    let rest = crate::text::slice_chars(v.as_slice(), i, n);
    assert(rest@ =~= v@.skip(i as int));
    assert(strip_leading_v(rest@) == rest@);
    let latest = string_of(rest.as_slice());
    let differs = !str_eq(latest.as_str(), current);
    let available = differs && rest.len() > 0;
    UpdateCheckResponse {
        current_version: current.to_string(),
        latest_version: latest,
        update_available: available,
        release_url: match html_url {
            Some(u) => Some(u.to_string()),
            None => None,
        },
    }
}

pub const UPDATE_SUCCESS: &'static str = "success";
pub const UPDATE_FAILED: &'static str = "failed";

/// The status logged for one agent's update command: whether it was
/// delivered with a success answer.
pub fn update_status(delivered: bool) -> (r: &'static str)
    ensures
        r@ == (if delivered { UPDATE_SUCCESS@ } else { UPDATE_FAILED@ }),
{
    if delivered { UPDATE_SUCCESS } else { UPDATE_FAILED }
}

/// How many of `results` are deliveries.
pub open spec fn count_delivered(results: Seq<bool>) -> nat
    decreases results.len(),
{
    if results.len() == 0 {
        0
    } else {
        count_delivered(results.drop_last()) + if results.last() { 1nat } else { 0nat }
    }
}

/// The `sent` and `failed` counts of an update round, one result per agent.
pub fn update_tally(results: &[bool]) -> (r: (usize, usize))
    ensures
        r.0 == count_delivered(results@),
        r.0 + r.1 == results@.len(),
{
    let mut sent: usize = 0;
    let mut failed: usize = 0;
    let mut i: usize = 0;
    while i < results.len()
        invariant
            i <= results@.len(),
            sent == count_delivered(results@.take(i as int)),
            sent + failed == i,
        decreases results@.len() - i,
    {
        assert(results@.take(i + 1).drop_last() =~= results@.take(i as int));
        if results[i] {
            sent += 1;
        } else {
            failed += 1;
        }
        i += 1;
    }
    assert(results@.take(results@.len() as int) =~= results@);
    (sent, failed)
}

} // verus!
