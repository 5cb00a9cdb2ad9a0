use lynx::agent::auth::{check_payload, check_signature, verify_bearer, CommandRejection, PermissionLevel, SignedCommand};
use lynx::agent::commands::{
    audit_result, command_kind, dispatch_command, sanitize_error, AgentError, AuditResult, CommandKind,
};
use lynx::agent::nftables::{checksum_of, render_ruleset, OrgNetwork, Ruleset};
use lynx::agent::podman::{
    container_info, ensure_org_network, org_network_args, podman_as_tenant, tenant_user_command,
    tenant_user_next, tenant_username, OrgNetworkStep, TenantUserStep,
};
use lynx::dashboard::hash::sha256_hex;
use lynx::dashboard::pki::{gen_ca_keypair, issue_cert};

#[test]
fn bearer_tokens_compare_exactly() {
    assert!(verify_bearer("s3cret", "s3cret"));
    assert!(!verify_bearer("s3cret", "s3cre"));
    assert!(!verify_bearer("", "s3cret"));
}

#[test]
fn signed_commands_verify() {
    let (secret, public) = gen_ca_keypair();
    let payload = br#"{"type":"container.list"}"#;
    let cert = issue_cert(&secret, payload);
    let cmd = SignedCommand { payload: cert.payload.clone(), signature: cert.signature.clone() };
    assert_eq!(check_signature(&cmd, &public).unwrap(), payload.to_vec());
    let (_, other) = gen_ca_keypair();
    assert_eq!(check_signature(&cmd, &other), Err(CommandRejection::BadSignature));
    let bad = SignedCommand { payload: "!!".into(), signature: cert.signature.clone() };
    assert_eq!(check_signature(&bad, &public), Err(CommandRejection::PayloadEncoding));
    let bad = SignedCommand { payload: cert.payload.clone(), signature: "!!".into() };
    assert_eq!(check_signature(&bad, &public), Err(CommandRejection::SignatureEncoding));
    let short = SignedCommand { payload: cert.payload, signature: "AAAA".into() };
    assert_eq!(check_signature(&short, &public), Err(CommandRejection::SignatureLength));
}

#[test]
fn payload_freshness() {
    assert_eq!(check_payload(1, 1, 100, 130), Ok(()));
    assert_eq!(check_payload(1, 1, 130, 100), Ok(()));
    assert_eq!(check_payload(1, 1, 100, 131), Err(CommandRejection::Stale));
    assert_eq!(check_payload(1, 1, 131, 100), Err(CommandRejection::Stale));
    assert_eq!(check_payload(1, 2, 100, 100), Err(CommandRejection::WrongAgent));
    assert_eq!(check_payload(1, 1, i64::MIN, i64::MAX), Err(CommandRejection::Stale));
}

#[test]
fn command_dispatch() {
    assert_eq!(command_kind("container.list"), Some(CommandKind::ContainerList));
    assert_eq!(command_kind("nope"), None);
    assert_eq!(dispatch_command("container.list", PermissionLevel::Read), Ok(CommandKind::ContainerList));
    assert_eq!(
        dispatch_command("container.remove", PermissionLevel::Write),
        Err(AgentError::Forbidden("container.remove requires destructive permission".into()))
    );
    assert_eq!(
        dispatch_command("container.start", PermissionLevel::Read),
        Err(AgentError::Forbidden("container.start requires write permission".into()))
    );
    assert_eq!(dispatch_command("container.remove", PermissionLevel::Destructive), Ok(CommandKind::ContainerRemove));
    assert_eq!(dispatch_command("rm -rf", PermissionLevel::Destructive), Err(AgentError::BadRequest("unknown command type".into())));
}

#[test]
fn audit_outcomes() {
    assert_eq!(audit_result(None), AuditResult::Success);
    assert_eq!(audit_result(Some(&AgentError::Forbidden("x".into()))), AuditResult::Rejected);
    assert_eq!(audit_result(Some(&AgentError::Internal("disk".into()))), AuditResult::Failed);
    assert_eq!(audit_result(Some(&AgentError::Lockdown)), AuditResult::Failed);
    assert_eq!(sanitize_error(&AgentError::Internal("secret path".into())), "internal error");
    assert_eq!(sanitize_error(&AgentError::BadRequest("x".into())), "bad request: x");
}

#[test]
fn ruleset_script_and_checksum() {
    let rs = Ruleset {
        wireguard_port: 51820,
        org_networks: vec![OrgNetwork { org_id: "acme".into(), subnet: "10.10.0.0/24".into() }],
    };
    let text = render_ruleset(&rs);
    assert!(text.starts_with("table inet lynx-agent {}\ndelete table inet lynx-agent\n\ntable inet lynx-agent {\n"));
    assert!(text.contains("udp dport 51820 accept"));
    assert!(text.contains("        # org acme isolation\n        ip saddr 10.10.0.0/24 ip daddr != 10.10.0.0/24 drop;\n"));
    assert!(text.ends_with("policy accept;\n    }\n}\n"));
    assert_eq!(checksum_of(&rs), sha256_hex(text.as_bytes()));
}

#[test]
fn tenant_commands() {
    assert_eq!(tenant_username("t1"), "lynx-tenant-t1");
    let c = podman_as_tenant("t1", &vec!["ps".into(), "-a".into()]);
    assert_eq!(c.program, "runuser");
    assert_eq!(c.args, vec!["-l", "lynx-tenant-t1", "-c", "podman ps -a"]);
    let c = tenant_user_command(TenantUserStep::AddSubuids, "lynx-tenant-t1").unwrap();
    assert_eq!(c.program, "usermod");
    assert_eq!(c.args, vec!["--add-subuids", "65536", "lynx-tenant-t1"]);
    assert!(tenant_user_command(TenantUserStep::Done, "u").is_none());
}

#[test]
fn tenant_user_steps() {
    assert_eq!(tenant_user_next(TenantUserStep::CheckUser, true, "u"), Ok(TenantUserStep::Done));
    assert_eq!(tenant_user_next(TenantUserStep::CheckUser, false, "u"), Ok(TenantUserStep::CreateUser));
    assert_eq!(tenant_user_next(TenantUserStep::CreateUser, true, "u"), Ok(TenantUserStep::AddSubuids));
    assert_eq!(tenant_user_next(TenantUserStep::AddSubuids, true, "u"), Ok(TenantUserStep::AddSubgids));
    assert_eq!(tenant_user_next(TenantUserStep::AddSubgids, true, "u"), Ok(TenantUserStep::Done));
    assert_eq!(tenant_user_next(TenantUserStep::CreateUser, false, "u"), Err("useradd failed for u".into()));
    assert_eq!(
        tenant_user_next(TenantUserStep::AddSubgids, false, "u"),
        Err("usermod --add-subgids failed for u".into())
    );
}

#[test]
fn org_network_steps() {
    assert_eq!(org_network_args(OrgNetworkStep::CheckExists, "org-a"), Some(vec!["network".into(), "exists".into(), "org-a".into()]));
    assert_eq!(
        org_network_args(OrgNetworkStep::Create, "org-a"),
        Some(vec!["network".into(), "create".into(), "--internal".into(), "org-a".into()])
    );
    assert_eq!(org_network_args(OrgNetworkStep::Done, "org-a"), None);
    assert_eq!(ensure_org_network(OrgNetworkStep::CheckExists, false, ""), Ok(OrgNetworkStep::Create));
    assert_eq!(ensure_org_network(OrgNetworkStep::Create, true, ""), Ok(OrgNetworkStep::Done));
    assert_eq!(ensure_org_network(OrgNetworkStep::Create, false, "boom"), Err("podman network create failed: boom".into()));
}

#[test]
fn container_entries() {
    let c = container_info(Some("id1".into()), Some("web".into()), Some("running".into()), Some("nginx".into())).unwrap();
    assert_eq!((c.id.as_str(), c.name.as_str(), c.status.as_str(), c.image.as_str()), ("id1", "web", "running", "nginx"));
    assert!(container_info(Some("id1".into()), None, Some("running".into()), Some("nginx".into())).is_none());
}
