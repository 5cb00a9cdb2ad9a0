//! Internal PKI: the dashboard's CA issues Ed25519-signed certificates to
//! agents.  A certificate is a JSON payload signed by the CA's key (not
//! X.509); agents check the CA signature to authenticate the dashboard.
use vstd::prelude::*;
use base64ct::{Base64UrlUnpadded, Encoding};
use ed25519_dalek::{Signer, SigningKey};
use crate::agent::auth::{
    base64url_decode, base64url_decoded, ed25519_accepts, ed25519_key_valid, ed25519_verify,
    to_signature_array,
};

verus! {

/// How long a certificate is valid, in days.
pub const CERT_VALIDITY_DAYS: i64 = 90;

/// Seconds in `CERT_VALIDITY_DAYS` days.
pub const CERT_VALIDITY_SECS: i64 = 7_776_000;

/// Certificate payload, signed by the CA key.  Times are Unix timestamps.
#[derive(Debug, Clone, Copy, PartialEq, Eq)]
pub struct AgentCert {
    pub agent_id: u128,
    pub issued_at: i64,
    pub expires_at: i64,
}

/// A serialized, signed certificate.
#[derive(Debug, Clone)]
pub struct SignedCert {
    /// Base64url-encoded JSON payload.
    pub payload: String,
    /// Base64url-encoded Ed25519 signature.
    pub signature: String,
}

/// Why a certificate is refused.
#[derive(Debug, Clone, Copy, PartialEq, Eq)]
pub enum CertError {
    PayloadEncoding,
    SignatureEncoding,
    CaKey,
    SignatureLength,
    BadSignature,
    AgentMismatch,
    Expired,
}

impl CertError {
    pub open spec fn message_view(self) -> Seq<char> {
        match self {
            CertError::PayloadEncoding => "base64url decode payload"@,
            CertError::SignatureEncoding => "base64url decode signature"@,
            CertError::CaKey => "parse CA public key"@,
            CertError::SignatureLength => "signature must be 64 bytes"@,
            CertError::BadSignature => "CA signature invalid"@,
            CertError::AgentMismatch => "cert agent_id mismatch"@,
            CertError::Expired => "cert expired"@,
        }
    }

    pub fn message(&self) -> (r: &'static str)
        ensures
            r@ == self.message_view(),
    {
        match self {
            CertError::PayloadEncoding => "base64url decode payload",
            CertError::SignatureEncoding => "base64url decode signature",
            CertError::CaKey => "parse CA public key",
            CertError::SignatureLength => "signature must be 64 bytes",
            CertError::BadSignature => "CA signature invalid",
            CertError::AgentMismatch => "cert agent_id mismatch",
            CertError::Expired => "cert expired",
        }
    }
}

/// The unpadded base64url text of some bytes.
pub uninterp spec fn base64url_encoded(bytes: Seq<u8>) -> Seq<char>;

/// `Base64UrlUnpadded::encode_string`: the encoding, which decodes back to
/// the same bytes.
#[verifier::external_body]
pub(crate) fn base64url_encode(bytes: &[u8]) -> (r: String)
    requires
        bytes@.len() <= usize::MAX / 4,
    ensures
        r@ == base64url_encoded(bytes@),
        base64url_decoded(r@) == Some(bytes@),
{
    Base64UrlUnpadded::encode_string(bytes)
}

/// The public key of an Ed25519 secret key.
pub uninterp spec fn ed25519_public(seed: Seq<u8>) -> Seq<u8>;

/// The Ed25519 signature of `msg` by the secret key `seed`.
pub uninterp spec fn ed25519_signature(seed: Seq<u8>, msg: Seq<u8>) -> Seq<u8>;

/// `SigningKey::from_bytes(seed).verifying_key().to_bytes()`: the public
/// key, a valid point.
#[verifier::external_body]
pub(crate) fn ed25519_public_key(seed: &[u8; 32]) -> (r: [u8; 32])
    ensures
        r@ == ed25519_public(seed@) && ed25519_key_valid(r@),
{
    SigningKey::from_bytes(seed).verifying_key().to_bytes()
}

/// `SigningKey::from_bytes(seed).sign(msg)`: the signature, which the
/// public key of `seed` accepts.
#[verifier::external_body]
pub(crate) fn ed25519_sign(seed: &[u8; 32], msg: &[u8]) -> (r: [u8; 64])
    ensures
        r@ == ed25519_signature(seed@, msg@),
        ed25519_accepts(ed25519_public(seed@), msg@, r@),
{
    SigningKey::from_bytes(seed).sign(msg).to_bytes()
}

/// `rand::RngCore::fill_bytes` on `OsRng`: thirty-two random bytes.
#[verifier::external_body]
fn random_seed() -> (r: [u8; 32]) {
    let mut seed = [0u8; 32];
    rand::RngCore::fill_bytes(&mut rand::rngs::OsRng, &mut seed);
    seed
}

/// A new CA key pair: a random secret key and its public key.
pub fn gen_ca_keypair() -> (r: ([u8; 32], [u8; 32]))
    ensures
        r.1@ == ed25519_public(r.0@),
        ed25519_key_valid(r.1@),
{
    let seed = random_seed();
    let public = ed25519_public_key(&seed);
    (seed, public)
}

/// The certificate issued to `agent_id` at `now`.
pub open spec fn agent_cert_spec(agent_id: u128, now: i64) -> AgentCert {
    AgentCert { agent_id, issued_at: now, expires_at: (now + CERT_VALIDITY_SECS) as i64 }
}

/// The payload of a certificate for `agent_id` issued at `now`, valid for
/// `CERT_VALIDITY_DAYS` days.
pub fn new_agent_cert(agent_id: u128, now: i64) -> (r: AgentCert)
    requires
        now <= i64::MAX - CERT_VALIDITY_SECS,
    ensures
        r == agent_cert_spec(agent_id, now),
        r.agent_id == agent_id,
        r.issued_at == now,
        r.expires_at == now + CERT_VALIDITY_SECS,
{
    AgentCert { agent_id, issued_at: now, expires_at: now + CERT_VALIDITY_SECS }
}

/// What checking a certificate's envelope gives: the payload bytes, or the
/// first check that failed (payload, signature, CA key, signature length,
/// signature).
pub open spec fn cert_envelope_check(payload: Seq<char>, signature: Seq<char>, ca_key: Seq<u8>) -> Result<Seq<u8>, CertError> {
    match base64url_decoded(payload) {
        None => Err(CertError::PayloadEncoding),
        Some(p) => match base64url_decoded(signature) {
            None => Err(CertError::SignatureEncoding),
            Some(sig) => if !ed25519_key_valid(ca_key) {
                Err(CertError::CaKey)
            } else if sig.len() != 64 {
                Err(CertError::SignatureLength)
            } else if !ed25519_accepts(ca_key, p, sig) {
                Err(CertError::BadSignature)
            } else {
                Ok(p)
            },
        },
    }
}

/// Issue a certificate: the payload (the certificate's JSON) and its CA
/// signature, both base64url-encoded.  The certificate verifies under the
/// CA's public key (a valid key, as every key from [`gen_ca_keypair`] is)
/// and gives this payload back.
pub fn issue_cert(ca_private_seed: &[u8; 32], payload_json: &[u8]) -> (r: SignedCert)
    requires
        payload_json@.len() <= usize::MAX / 4,
    ensures
        r.payload@ == base64url_encoded(payload_json@),
        r.signature@ == base64url_encoded(ed25519_signature(ca_private_seed@, payload_json@)),
        ed25519_key_valid(ed25519_public(ca_private_seed@)) ==>
            cert_envelope_check(r.payload@, r.signature@, ed25519_public(ca_private_seed@))
                == Ok::<Seq<u8>, CertError>(payload_json@),
{
    let payload = base64url_encode(payload_json);
    let sig = ed25519_sign(ca_private_seed, payload_json);
    let signature = base64url_encode(&sig);
    SignedCert { payload, signature }
}

/// Check a certificate's envelope against the CA public key and return its
/// payload bytes (the JSON of an [`AgentCert`]).
pub fn verify_cert_envelope(ca_public_bytes: &[u8; 32], cert: &SignedCert) -> (r: Result<Vec<u8>, CertError>)
    ensures
        match r {
            Ok(p) => cert_envelope_check(cert.payload@, cert.signature@, ca_public_bytes@) == Ok::<Seq<u8>, CertError>(p@),
            Err(e) => cert_envelope_check(cert.payload@, cert.signature@, ca_public_bytes@) == Err::<Seq<u8>, CertError>(e),
        },
{
    let payload = match base64url_decode(cert.payload.as_str()) {
        Some(p) => p,
        None => return Err(CertError::PayloadEncoding),
    };
    let sig = match base64url_decode(cert.signature.as_str()) {
        Some(s) => s,
        None => return Err(CertError::SignatureEncoding),
    };
    match to_signature_array(sig.as_slice()) {
        None => {
            // The key is checked before the signature's length.
            let zero = [0u8; 64];
            match ed25519_verify(ca_public_bytes, payload.as_slice(), &zero) {
                None => Err(CertError::CaKey),
                Some(_) => Err(CertError::SignatureLength),
            }
        },
        Some(arr) => match ed25519_verify(ca_public_bytes, payload.as_slice(), &arr) {
            None => Err(CertError::CaKey),
            Some(false) => Err(CertError::BadSignature),
            Some(true) => Ok(payload),
        },
    }
}

/// The claims check of a certificate for `expected` at time `now`: the
/// agent is checked first, then the expiry.
pub open spec fn cert_claims(cert: AgentCert, expected: u128, now: i64) -> Result<(), CertError> {
    if cert.agent_id != expected {
        Err(CertError::AgentMismatch)
    } else if now > cert.expires_at {
        Err(CertError::Expired)
    } else {
        Ok(())
    }
}

/// A certificate issued to an agent at time `t` passes the claims check for
/// that agent up to its expiry, `CERT_VALIDITY_SECS` later, fails it as
/// expired after that, and fails it for every other agent.
pub proof fn issued_cert_claims(agent_id: u128, t: i64, now: i64, other: u128)
    requires
        t <= i64::MAX - CERT_VALIDITY_SECS,
        other != agent_id,
    ensures
        agent_cert_spec(agent_id, t).expires_at == t + CERT_VALIDITY_SECS,
        cert_claims(agent_cert_spec(agent_id, t), agent_id, now) == (if now <= t + CERT_VALIDITY_SECS {
            Ok::<(), CertError>(())
        } else {
            Err::<(), CertError>(CertError::Expired)
        }),
        cert_claims(agent_cert_spec(agent_id, t), other, now) == Err::<(), CertError>(CertError::AgentMismatch),
{
}

/// A certificate's claims hold for `expected_agent_id` at time `now`: it
/// names that agent and has not expired.
pub fn check_cert_claims(cert: &AgentCert, expected_agent_id: u128, now: i64) -> (r: Result<(), CertError>)
    ensures
        r == cert_claims(*cert, expected_agent_id, now),
        match r {
            Ok(()) => cert.agent_id == expected_agent_id && now <= cert.expires_at,
            Err(CertError::AgentMismatch) => cert.agent_id != expected_agent_id,
            Err(CertError::Expired) => cert.agent_id == expected_agent_id && now > cert.expires_at,
            Err(_) => false,
        },
{
    if cert.agent_id != expected_agent_id {
        return Err(CertError::AgentMismatch);
    }
    if now > cert.expires_at {
        return Err(CertError::Expired);
    }
    Ok(())
}

} // verus!
