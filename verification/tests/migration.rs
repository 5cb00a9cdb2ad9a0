use lynx::dashboard::error::AppError;
use lynx::dashboard::migration::{
    background_status, check_all_confirmed, check_start, migration_request, BackgroundStep,
    MigrationRequest,
};

fn refusal(r: Result<&'static str, AppError>) -> Option<String> {
    match r {
        Ok(_) => None,
        Err(AppError::Validation(m)) => Some(m),
        Err(e) => panic!("unexpected error {:?}", e),
    }
}

#[test]
fn migration_requests_by_status() {
    assert_eq!(migration_request("idle", MigrationRequest::Prepare).unwrap(), "preparing");
    assert_eq!(migration_request("idle", MigrationRequest::Start).unwrap(), "transferring");
    assert_eq!(
        refusal(migration_request("preparing", MigrationRequest::Prepare)),
        Some("migration already in progress \u{2014} abort or wait for completion".into())
    );
    assert_eq!(
        refusal(migration_request("transferring", MigrationRequest::Start)),
        Some("migration already in progress \u{2014} abort first".into())
    );
    assert_eq!(migration_request("transferring", MigrationRequest::Abort).unwrap(), "aborted");
    assert_eq!(
        refusal(migration_request("idle", MigrationRequest::Abort)),
        Some("nothing to abort \u{2014} migration is idle or already completed".into())
    );
    assert_eq!(migration_request("waiting_agents", MigrationRequest::ConfirmShutdown).unwrap(), "completed");
    assert_eq!(
        refusal(migration_request("transferring", MigrationRequest::ConfirmShutdown)),
        Some("shutdown only available after all agents have confirmed".into())
    );
}

#[test]
fn completed_and_aborted_migrations_stay_put() {
    for req in [MigrationRequest::Prepare, MigrationRequest::Start, MigrationRequest::Abort, MigrationRequest::ConfirmShutdown] {
        assert!(migration_request("completed", req).is_err());
    }
    assert!(migration_request("aborted", MigrationRequest::Prepare).is_err());
    assert!(migration_request("aborted", MigrationRequest::Start).is_err());
}

#[test]
fn start_requests() {
    assert_eq!(check_start("idle", "  https://b.example.com/// ").unwrap(), "https://b.example.com");
    assert!(matches!(check_start("idle", " // "), Err(AppError::Validation(m)) if m == "target_url required"));
    assert!(matches!(
        check_start("error", "https://b"),
        Err(AppError::Validation(m)) if m == "migration already in progress \u{2014} abort first"
    ));
}

#[test]
fn closing_waits_for_agents() {
    assert!(check_all_confirmed(3, 3).is_ok());
    assert!(check_all_confirmed(0, 0).is_ok());
    assert!(matches!(
        check_all_confirmed(5, 2),
        Err(AppError::Validation(m)) if m == "3 of 5 agents still pending"
    ));
    assert_eq!(background_status(BackgroundStep::Transfer, true), "notifying_agents");
    assert_eq!(background_status(BackgroundStep::Restore, true), "waiting_agents");
    assert_eq!(background_status(BackgroundStep::Restore, false), "error");
}

use lynx::dashboard::domain::{check_domain_active, check_domain_request, DomainChange};

#[test]
fn domain_requests() {
    assert_eq!(check_domain_request("  Dash.Example.COM ", "ops@example.com").unwrap(), "dash.example.com");
    assert!(matches!(check_domain_request("   ", "ops@example.com"), Err(AppError::Validation(m)) if m == "invalid domain"));
    assert!(matches!(check_domain_request("a b.com", "ops@example.com"), Err(AppError::Validation(m)) if m == "invalid domain"));
    assert!(matches!(
        check_domain_request("example.com", "ops.example.com"),
        Err(AppError::Validation(m)) if m == "invalid email for Let's Encrypt"
    ));
    assert!(matches!(
        check_domain_request("example.com", "ops @example.com"),
        Err(AppError::Validation(m)) if m == "invalid email for Let's Encrypt"
    ));
}

#[test]
fn domain_changes_need_an_active_domain() {
    assert!(check_domain_active("active", DomainChange::Hsts).is_ok());
    assert!(matches!(
        check_domain_active("pending", DomainChange::Hsts),
        Err(AppError::Validation(m)) if m == "HSTS can only be enabled after domain is fully configured"
    ));
    assert!(matches!(
        check_domain_active("error", DomainChange::CloseSetupPort),
        Err(AppError::Validation(m)) if m == "can only close port 19443 after domain is fully active"
    ));
}
