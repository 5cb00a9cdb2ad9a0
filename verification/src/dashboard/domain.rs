//! The dashboard's own domain: checking a domain request and the states in
//! which HSTS and the setup port may be changed.
use vstd::prelude::*;
use crate::dashboard::error::{AppError, Result};
use crate::dashboard::hash::{lowercase_spec, to_lowercase};
use crate::text::{chars_of, find_char, find_char_exec, str_eq, string_of, trim, trim_chars};

verus! {

pub const INVALID_DOMAIN: &'static str = "invalid domain";
pub const INVALID_ACME_EMAIL: &'static str = "invalid email for Let's Encrypt";
pub const ACTIVE: &'static str = "active";
pub const HSTS_TOO_EARLY: &'static str = "HSTS can only be enabled after domain is fully configured";
pub const CLOSE_TOO_EARLY: &'static str = "can only close port 19443 after domain is fully active";

/// The domain as it is stored: trimmed and lowercased.
pub open spec fn domain_spec(domain: Seq<char>) -> Seq<char> {
    lowercase_spec(trim(domain))
}

/// Why a domain request is refused, if it is: an empty domain or one with
/// a space, or an email without `@` or with a space.
pub open spec fn domain_request_error(domain: Seq<char>, email: Seq<char>) -> Option<Seq<char>> {
    let d = domain_spec(domain);
    if d.len() == 0 || find_char(d, ' ') is Some {
        Some(INVALID_DOMAIN@)
    } else if find_char(email, '@') is None || find_char(email, ' ') is Some {
        Some(INVALID_ACME_EMAIL@)
    } else {
        None
    }
}

/// Checks a domain request; returns the domain as it is stored.
pub fn check_domain_request(domain: &str, email: &str) -> (r: Result<String>)
    ensures
        match r {
            Ok(d) => domain_request_error(domain@, email@) is None && d@ == domain_spec(domain@),
            Err(AppError::Validation(m)) => domain_request_error(domain@, email@) == Some(m@),
            Err(_) => false,
        },
{
    let v = chars_of(domain);
    let t = trim_chars(v.as_slice());
    let ts = string_of(t.as_slice());
    let d = to_lowercase(ts.as_str());
    let dv = chars_of(d.as_str());
    if dv.len() == 0 || find_char_exec(dv.as_slice(), ' ').is_some() {
        return Err(AppError::Validation(INVALID_DOMAIN.to_string()));
    }
    let ev = chars_of(email);
    if find_char_exec(ev.as_slice(), '@').is_none() || find_char_exec(ev.as_slice(), ' ').is_some() {
        return Err(AppError::Validation(INVALID_ACME_EMAIL.to_string()));
    }
    Ok(d)
}

/// A change that needs the domain fully configured.
#[derive(Debug, Clone, Copy, PartialEq, Eq)]
pub enum DomainChange {
    /// Turning HSTS on or off.
    Hsts,
    /// Closing the setup port 19443.
    CloseSetupPort,
}

pub open spec fn too_early_message(change: DomainChange) -> Seq<char> {
    match change {
        DomainChange::Hsts => HSTS_TOO_EARLY@,
        DomainChange::CloseSetupPort => CLOSE_TOO_EARLY@,
    }
}

/// HSTS and the setup port change only once the domain is `active`.
pub fn check_domain_active(status: &str, change: DomainChange) -> (r: Result<()>)
    ensures
        match r {
            Ok(()) => status@ == ACTIVE@,
            Err(AppError::Validation(m)) => status@ != ACTIVE@ && m@ == too_early_message(change),
            Err(_) => false,
        },
{
    if str_eq(status, ACTIVE) {
        return Ok(());
    }
    let m = match change {
        DomainChange::Hsts => HSTS_TOO_EARLY,
        DomainChange::CloseSetupPort => CLOSE_TOO_EARLY,
    };
    Err(AppError::Validation(m.to_string()))
}

} // verus!
