use lynx::dashboard::access::{
    agent_message_kind, bearer_token, check_migration_receive, forwarded_client, heartbeat_status,
    login_outcome, migration_token, needs_agent_update, rate_limit_verdict, registration_conflict, reported_status,
    setup_token_accepted, setup_window_open, starts_window, token_matches_hash, AgentMessageKind,
    HeartbeatReply, RateLimit,
};
use lynx::dashboard::audit::{check_audit_batch, AuditSyncEntry};
use lynx::dashboard::error::AppError;
use lynx::dashboard::hash::{email_hash, hex_encode, ip_hash, sha256_hex, token_hash, ua_hash};
use lynx::dashboard::kek::{decrypt_dek, decrypt_with_dek, encrypt_dek, encrypt_with_dek, gen_dek, KekError};
use lynx::dashboard::nftables::{rule_line, rules_to_nft_chain, validate_rule_request, CreateRuleRequest, NftRule};
use lynx::dashboard::nginx::{nginx_compose_yaml, nginx_conf};
use lynx::dashboard::pki::{
    check_cert_claims, gen_ca_keypair, issue_cert, new_agent_cert, verify_cert_envelope, CertError,
    SignedCert, CERT_VALIDITY_SECS,
};
use lynx::dashboard::requests::{
    agent_release_asset_urls, agent_url, check_channel, check_preferences, default_channel,
    release_asset_urls, rotation_plan, update_check_response, update_status, update_tally, RotateRequest, UpdatePreferencesRequest,
};
use lynx::dashboard::validate;

const SHA256_ABC: &str = "ba7816bf8f01cfea414140de5dae2223b00361a396177a9cb410ff61f20015ad";

fn validation_message(r: Result<(), AppError>) -> Option<String> {
    match r {
        Ok(()) => None,
        Err(AppError::Validation(m)) => Some(m),
        Err(e) => panic!("unexpected error {:?}", e),
    }
}

#[test]
fn username_rules() {
    assert_eq!(validation_message(validate::username("alice_01")), None);
    assert_eq!(validation_message(validate::username("ab")), Some("username: 3\u{2013}32 characters".into()));
    assert_eq!(
        validation_message(validate::username("Alice")),
        Some("username: only lowercase letters, digits, - and _".into())
    );
    assert_eq!(
        validation_message(validate::username("-alice")),
        Some("username: cannot start or end with - or _".into())
    );
    assert_eq!(validation_message(validate::username("admin")), Some("username: reserved".into()));
}

#[test]
fn password_rules() {
    assert_eq!(validation_message(validate::password("Str0ng!Passw0rd")), None);
    assert_eq!(validation_message(validate::password("Sh0rt!")), Some("password: 12\u{2013}30 characters".into()));
    assert_eq!(
        validation_message(validate::password("alllowercase123!")),
        Some("password: requires uppercase, lowercase, digit, and special character".into())
    );
    assert_eq!(
        validation_message(validate::password("NoSpecialChar123")),
        Some("password: requires uppercase, lowercase, digit, and special character".into())
    );
}

#[test]
fn email_rules() {
    assert_eq!(validation_message(validate::email("  user@example.com ")), None);
    assert_eq!(validation_message(validate::email("user.example.com")), Some("email: invalid format".into()));
    assert_eq!(validation_message(validate::email("@example.com")), Some("email: invalid format".into()));
    assert_eq!(validation_message(validate::email("user@localhost")), Some("email: invalid domain".into()));
    let long = format!("{}@example.com", "a".repeat(250));
    assert_eq!(validation_message(validate::email(&long)), Some("email: too long".into()));
}

#[test]
fn error_answers() {
    assert_eq!(AppError::RateLimited { retry_after: 3 }.status_and_code(), (429, "too_many_requests"));
    assert_eq!(AppError::Validation("x".into()).status_and_code(), (422, "validation_error"));
    assert_eq!(AppError::Unauthorized.status_and_code(), (401, "unauthorized"));
    assert_eq!(AppError::Conflict("c".into()).detail(), Some("c".to_string()));
    assert_eq!(AppError::NotFound.detail(), None);
}

fn entry(id: u128, agent: u128, prev: &str, hash: &str, at: i64) -> AuditSyncEntry {
    AuditSyncEntry {
        id,
        agent_id: agent,
        organization_id: None,
        user_id: None,
        command_type: "ping".into(),
        result: "success".into(),
        error: None,
        previous_hash: prev.into(),
        entry_hash: hash.into(),
        created_at: at,
    }
}

#[test]
fn audit_batch_sorted_filtered_and_linked() {
    let batch = vec![
        entry(2, 7, "h1", "h2", 20),
        entry(9, 8, "zz", "yy", 15),
        entry(1, 7, "tip", "h1", 10),
    ];
    let accepted = check_audit_batch("tip", batch, 7).unwrap();
    assert_eq!(accepted.iter().map(|e| e.id).collect::<Vec<_>>(), vec![1, 2]);
}

#[test]
fn audit_batch_reports_first_break() {
    let batch = vec![entry(1, 7, "tip", "h1", 10), entry(2, 7, "wrong", "h2", 20)];
    assert_eq!(check_audit_batch("tip", batch, 7).unwrap_err(), 2);
    let batch = vec![entry(5, 7, "other", "h1", 10)];
    assert_eq!(check_audit_batch("tip", batch, 7).unwrap_err(), 5);
}

#[test]
fn rate_limits() {
    assert!(rate_limit_verdict(RateLimit::Login, 5, 100).is_ok());
    assert!(matches!(rate_limit_verdict(RateLimit::Login, 6, 100), Err(AppError::RateLimited { retry_after: 100 })));
    assert!(matches!(rate_limit_verdict(RateLimit::Login, 6, -1), Err(AppError::RateLimited { retry_after: 900 })));
    assert!(matches!(rate_limit_verdict(RateLimit::Register, 4, 0), Err(AppError::RateLimited { retry_after: 3600 })));
    assert!(rate_limit_verdict(RateLimit::Register, 3, 0).is_ok());
    assert_eq!(RateLimit::Login.key("1.2.3.4"), "rl:login:1.2.3.4");
    assert_eq!(RateLimit::Register.key("::1"), "rl:register:::1");
    assert!(starts_window(1));
    assert!(!starts_window(2));
}

#[test]
fn client_headers() {
    assert_eq!(forwarded_client(" 10.0.0.1 , 10.0.0.2"), "10.0.0.1");
    assert_eq!(forwarded_client("192.168.1.1"), "192.168.1.1");
    assert_eq!(bearer_token("Bearer abc.def"), Some("abc.def".to_string()));
    assert_eq!(bearer_token("Basic abc"), None);
    assert_eq!(migration_token("Migration tok"), "tok");
    assert_eq!(migration_token("Bearer tok"), "");
}

#[test]
fn setup_and_registration() {
    assert!(setup_token_accepted(Some("t0k"), Some("t0k")));
    assert!(!setup_token_accepted(Some("t0k"), Some("other")));
    assert!(!setup_token_accepted(Some(""), Some("")));
    assert!(!setup_token_accepted(None, Some("t0k")));
    assert!(setup_window_open(Some(0), 86_400_000_000));
    assert!(!setup_window_open(Some(0), 86_400_000_001));
    assert!(setup_window_open(None, i64::MAX));
    assert!(registration_conflict(false, false).is_ok());
    assert!(matches!(registration_conflict(true, true), Err(AppError::Conflict(m)) if m == "username already taken"));
    assert!(matches!(registration_conflict(false, true), Err(AppError::Conflict(m)) if m == "email already registered"));
}

#[test]
fn hashing() {
    assert_eq!(hex_encode(&[0x00, 0xab, 0x0f]), "00ab0f");
    assert_eq!(sha256_hex(b"abc"), SHA256_ABC);
    assert_eq!(token_hash(b"ab", "c"), SHA256_ABC);
    assert_eq!(email_hash("AB", "c"), SHA256_ABC);
    assert_eq!(ip_hash("abc"), &SHA256_ABC[..32]);
    assert_eq!(ua_hash("abc"), &SHA256_ABC[..32]);
    assert!(token_matches_hash("abc", SHA256_ABC));
    assert!(!token_matches_hash("abd", SHA256_ABC));
}

#[test]
fn migration_receive_checks() {
    assert!(check_migration_receive("abc", Some(SHA256_ABC), "preparing").is_ok());
    assert!(matches!(check_migration_receive("abd", Some(SHA256_ABC), "preparing"), Err(AppError::Unauthorized)));
    assert!(matches!(check_migration_receive("abc", None, "preparing"), Err(AppError::Unauthorized)));
    assert!(matches!(
        check_migration_receive("abc", Some(SHA256_ABC), "idle"),
        Err(AppError::Validation(m)) if m == "target not in preparing state \u{2014} call /migration/prepare first"
    ));
}

#[test]
fn agent_status() {
    assert_eq!(heartbeat_status(HeartbeatReply::Success), "online");
    assert_eq!(heartbeat_status(HeartbeatReply::Status(423)), "lockdown");
    assert_eq!(heartbeat_status(HeartbeatReply::Status(500)), "offline");
    assert_eq!(heartbeat_status(HeartbeatReply::Unreachable), "offline");
    assert!(needs_agent_update("online", Some("1.0.0"), Some("1.1.0")));
    assert!(!needs_agent_update("online", Some("1.1.0"), Some("1.1.0")));
    assert!(!needs_agent_update("offline", Some("1.0.0"), Some("1.1.0")));
    assert!(!needs_agent_update("online", None, Some("1.1.0")));
    assert_eq!(agent_message_kind("audit_sync"), AgentMessageKind::AuditSync);
    assert_eq!(agent_message_kind("heartbeat"), AgentMessageKind::Heartbeat);
    assert_eq!(agent_message_kind("bogus"), AgentMessageKind::Other);
    assert_eq!(reported_status(None), "online");
    assert_eq!(reported_status(Some("lockdown")), "lockdown");
}

#[test]
fn rotation_requests() {
    let plan = rotation_plan(&RotateRequest { scope: "all".into(), reason: None }).unwrap();
    assert!(plan.sessions && plan.wireguard_psks && plan.certificates);
    assert_eq!(plan.reason, "manual");
    let plan = rotation_plan(&RotateRequest { scope: "jwt_keys".into(), reason: Some("emergency".into()) }).unwrap();
    assert!(plan.sessions && !plan.wireguard_psks && !plan.certificates);
    assert!(matches!(
        rotation_plan(&RotateRequest { scope: "keys".into(), reason: None }),
        Err(AppError::BadRequest(m)) if m == "invalid scope"
    ));
    assert!(matches!(
        rotation_plan(&RotateRequest { scope: "all".into(), reason: Some("boredom".into()) }),
        Err(AppError::BadRequest(m)) if m == "invalid reason"
    ));
}

#[test]
fn preference_and_channel_checks() {
    let ok = UpdatePreferencesRequest { theme: Some("dark".into()), locale: Some("es".into()) };
    assert!(check_preferences(&ok).is_ok());
    let bad_theme = UpdatePreferencesRequest { theme: Some("pink".into()), locale: None };
    assert!(matches!(check_preferences(&bad_theme), Err(AppError::Validation(m)) if m == "theme must be light, dark, or system"));
    let bad_locale = UpdatePreferencesRequest { theme: None, locale: Some("fr".into()) };
    assert!(matches!(check_preferences(&bad_locale), Err(AppError::Validation(m)) if m == "unsupported locale"));
    assert_eq!(default_channel(), "stable");
    assert!(check_channel("edge").is_ok());
    assert!(matches!(check_channel("nightly"), Err(AppError::BadRequest(m)) if m == "invalid channel"));
}

#[test]
fn update_urls_and_versions() {
    let (bin, sig) = release_asset_urls("v1.2.0");
    assert_eq!(bin, "https://github.com/Jaro-c/Lynx/releases/download/v1.2.0/lynx-agent-linux-x86_64");
    assert_eq!(sig, format!("{bin}.sig"));
    let (bin, _) = agent_release_asset_urls("0.3.1");
    assert_eq!(bin, "https://github.com/Jaro-c/Lynx/releases/download/agent@0.3.1/lynx-agent-linux-x86_64");
    assert_eq!(agent_url("10.0.0.5", 7443, "/health"), "http://10.0.0.5:7443/health");
    assert_eq!(agent_url("h", -1, "/x"), "http://h:-1/x");
    let r = update_check_response("1.0.0", Some("vv1.1.0"), Some("https://example.com/r"));
    assert_eq!(r.latest_version, "1.1.0");
    assert!(r.update_available);
    assert_eq!(r.release_url.as_deref(), Some("https://example.com/r"));
    let r = update_check_response("1.0.0", Some("v1.0.0"), None);
    assert!(!r.update_available);
    assert_eq!(r.release_url, None);
    let r = update_check_response("1.0.0", Some("v"), None);
    assert_eq!(r.latest_version, "");
    assert!(!r.update_available);
}

#[test]
fn certificates_round_trip() {
    let (secret, public) = gen_ca_keypair();
    let payload = br#"{"agent_id":"x","issued_at":1,"expires_at":2}"#;
    let cert = issue_cert(&secret, payload);
    assert_eq!(verify_cert_envelope(&public, &cert).unwrap(), payload.to_vec());
    let other = issue_cert(&secret, b"{}");
    let swapped = SignedCert { payload: other.payload.clone(), signature: cert.signature.clone() };
    assert_eq!(verify_cert_envelope(&public, &swapped), Err(CertError::BadSignature));
    let bad_sig = SignedCert { payload: cert.payload.clone(), signature: "AAAA".into() };
    assert_eq!(verify_cert_envelope(&public, &bad_sig), Err(CertError::SignatureLength));
    let bad_b64 = SignedCert { payload: "***".into(), signature: cert.signature.clone() };
    assert_eq!(verify_cert_envelope(&public, &bad_b64), Err(CertError::PayloadEncoding));
    let (_, other_public) = gen_ca_keypair();
    assert_eq!(verify_cert_envelope(&other_public, &cert), Err(CertError::BadSignature));
    assert_eq!(CertError::BadSignature.message(), "CA signature invalid");
}

#[test]
fn certificate_claims() {
    let c = new_agent_cert(42, 1_000);
    assert_eq!(c.expires_at, 1_000 + CERT_VALIDITY_SECS);
    assert_eq!(check_cert_claims(&c, 42, 1_000 + CERT_VALIDITY_SECS), Ok(()));
    assert_eq!(check_cert_claims(&c, 42, 1_001 + CERT_VALIDITY_SECS), Err(CertError::Expired));
    assert_eq!(check_cert_claims(&c, 43, 1_000), Err(CertError::AgentMismatch));
}

#[test]
fn data_keys_round_trip() {
    let kek = gen_dek();
    let dek = gen_dek();
    let wrapped = encrypt_dek(&dek, &kek).unwrap();
    assert_eq!(wrapped.len(), 12 + 32 + 16);
    assert_eq!(decrypt_dek(&wrapped, &kek).unwrap(), dek);
    let sealed = encrypt_with_dek(b"secret value", &dek).unwrap();
    assert_eq!(sealed.len(), 12 + 28);
    assert_eq!(decrypt_with_dek(&sealed, &dek).unwrap(), b"secret value".to_vec());
    assert_eq!(decrypt_with_dek(&sealed[..5], &dek), Err(KekError::CiphertextTooShort));
    let mut broken = sealed.clone();
    broken[20] ^= 1;
    assert_eq!(decrypt_with_dek(&broken, &dek), Err(KekError::Decrypt));
    let short = encrypt_with_dek(b"short", &dek).unwrap();
    assert_eq!(decrypt_dek(&short, &dek), Err(KekError::WrongDekLength));
}

fn rule(kind: &str, port: Option<i32>, protocol: Option<&str>, ips: &[&str], priority: i32, enabled: bool) -> NftRule {
    NftRule {
        id: priority as u128,
        scope: "global".into(),
        agent_id: None,
        kind: kind.into(),
        port,
        protocol: protocol.map(|p| p.to_string()),
        ip_list: ips.iter().map(|s| s.to_string()).collect(),
        ip_version: "both".into(),
        rate_per_min: None,
        description: None,
        priority,
        enabled,
        created_by: None,
        created_at: 0,
        updated_at: 0,
    }
}

#[test]
fn nft_chain_rendering() {
    let rules = vec![
        rule("block_ip", None, None, &["10.0.0.9", "fe80::1"], 20, true),
        rule("allow_port", Some(22), Some("tcp"), &[], 10, true),
        rule("allow_port", Some(80), None, &[], 5, false),
    ];
    assert_eq!(
        rules_to_nft_chain(&rules),
        "        tcp dport 22 accept\n        ip saddr 10.0.0.9 drop\n        ip6 saddr fe80::1 drop"
    );
    assert_eq!(
        rule_line("block_port", Some(25), None, &["1.2.3.4".to_string()], None),
        "ip saddr 1.2.3.4 tcp dport 25 drop\nip saddr 1.2.3.4 udp dport 25 drop"
    );
}

#[test]
fn nft_rule_requests() {
    let req = |kind: &str, port: Option<i32>, protocol: Option<&str>| CreateRuleRequest {
        kind: kind.into(),
        port,
        protocol: protocol.map(|p| p.to_string()),
        ip_list: None,
        ip_version: None,
        rate_per_min: None,
        description: None,
        priority: None,
    };
    assert_eq!(validation_message(validate_rule_request(&req("allow_port", Some(443), Some("tcp")))), None);
    assert_eq!(validation_message(validate_rule_request(&req("open", None, None))), Some("invalid rule kind".into()));
    assert_eq!(
        validation_message(validate_rule_request(&req("block_port", None, None))),
        Some("port required for this rule kind".into())
    );
    assert_eq!(
        validation_message(validate_rule_request(&req("rate_limit", Some(80), None))),
        Some("rate_per_min required for rate_limit".into())
    );
    assert_eq!(
        validation_message(validate_rule_request(&req("allow_port", Some(80), Some("icmp")))),
        Some("invalid protocol".into())
    );
}

#[test]
fn nginx_files() {
    let plain = nginx_conf("example.com", false, true);
    assert!(plain.starts_with("server {\n    listen 80;\n    server_name example.com;"));
    assert!(!plain.contains("443"));
    let tls = nginx_conf("example.com", true, true);
    assert!(tls.contains("ssl_certificate /etc/letsencrypt/live/example.com/fullchain.pem;"));
    assert!(tls.contains("Strict-Transport-Security"));
    assert!(!nginx_conf("example.com", true, false).contains("Strict-Transport-Security"));
    assert!(nginx_compose_yaml("example.com", true, false).contains("/etc/letsencrypt:/etc/letsencrypt:ro"));
    assert!(!nginx_compose_yaml("example.com", false, false).contains("letsencrypt"));
}

use lynx::dashboard::agents::{
    agent_api_port, check_agent_event, check_agent_reachable, command_permission, relay_heartbeat_outcome,
};

#[test]
fn agent_endpoints() {
    assert_eq!(agent_api_port(None), 9090);
    assert_eq!(agent_api_port(Some(7000)), 7000);
    assert!(check_agent_reachable("online").is_ok());
    assert!(matches!(check_agent_reachable("lockdown"), Err(AppError::AgentUnavailable)));
    assert!(matches!(check_agent_reachable("offline"), Err(AppError::AgentUnavailable)));
    assert_eq!(command_permission(None), "read");
    assert_eq!(command_permission(Some("destructive")), "destructive");
    assert!(check_agent_event(Some("nftables_divergence")).is_ok());
    assert!(matches!(check_agent_event(None), Err(AppError::BadRequest(m)) if m == "event field required"));
    assert!(matches!(check_agent_event(Some("reboot")), Err(AppError::BadRequest(m)) if m == "unknown event type"));
    let (s, r) = relay_heartbeat_outcome(HeartbeatReply::Success);
    assert_eq!(s, "online");
    assert!(r.is_ok());
    let (s, r) = relay_heartbeat_outcome(HeartbeatReply::Status(423));
    assert_eq!(s, "lockdown");
    assert!(matches!(r, Err(AppError::BadGateway)));
    let (s, _) = relay_heartbeat_outcome(HeartbeatReply::Unreachable);
    assert_eq!(s, "offline");
}

#[test]
fn login_credentials() {
    assert!(login_outcome(true, true).is_ok());
    assert!(matches!(login_outcome(true, false), Err(AppError::InvalidCredentials)));
    assert!(matches!(login_outcome(false, false), Err(AppError::InvalidCredentials)));
    assert!(matches!(login_outcome(false, true), Err(AppError::InvalidCredentials)));
}

#[test]
fn update_round_counts() {
    assert_eq!(update_tally(&[true, false, true, true]), (3, 1));
    assert_eq!(update_tally(&[]), (0, 0));
    assert_eq!(update_status(true), "success");
    assert_eq!(update_status(false), "failed");
}
