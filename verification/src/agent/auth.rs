//! Authentication of requests sent by the dashboard to an agent.
use vstd::prelude::*;
use base64ct::{Base64UrlUnpadded, Encoding};
use subtle::ConstantTimeEq;
use ed25519_dalek::Verifier;

verus! {

/// Largest tolerated distance between a command's timestamp and the agent's
/// clock, in seconds.
pub const MAX_TIMESTAMP_SKEW_SECS: i64 = 30;

/// Permission level required for a command.
#[derive(Debug, Clone, Copy, PartialEq, Eq, PartialOrd, Ord)]
pub enum PermissionLevel {
    Read,
    Write,
    Destructive,
}

/// Signed command envelope sent from dashboard to agent.
#[derive(Debug)]
pub struct SignedCommand {
    /// Base64url-encoded JSON payload bytes
    pub payload: String,
    /// Base64url-encoded Ed25519 signature over `payload` bytes
    pub signature: String,
}

/// Why a command was rejected.
#[derive(Debug, Clone, Copy, PartialEq, Eq)]
pub enum CommandRejection {
    /// `payload` is not unpadded base64url.
    PayloadEncoding,
    /// `signature` is not unpadded base64url.
    SignatureEncoding,
    /// The configured dashboard key is not a valid Ed25519 public key.
    VerifyKey,
    /// The decoded signature does not have 64 bytes.
    SignatureLength,
    /// The signature does not verify over the payload.
    BadSignature,
    /// The command names another agent.
    WrongAgent,
    /// The command's timestamp is too far from the agent's clock.
    Stale,
}

/// `subtle::ConstantTimeEq::ct_eq` on byte slices: equal lengths and equal
/// bytes.
#[verifier::external_body]
pub(crate) fn ct_eq(a: &[u8], b: &[u8]) -> (r: bool)
    ensures
        r == (a@ == b@),
{
    a.ct_eq(b).into()
}

/// Verify internal bearer token (constant-time).
pub fn verify_bearer(provided: &str, expected: &str) -> (r: bool)
    ensures
        r == (provided@ == expected@),
{
    let a = provided.as_bytes();
    let b = expected.as_bytes();
    proof {
        vstd::utf8::encode_utf8_decode_utf8(provided@);
        vstd::utf8::encode_utf8_decode_utf8(expected@);
    }
    if a.len() != b.len() {
        return false;
    }
    ct_eq(a, b)
}

/// The bytes an unpadded base64url text decodes to, or `None` when it is
/// not valid unpadded base64url.
pub uninterp spec fn base64url_decoded(s: Seq<char>) -> Option<Seq<u8>>;

/// `Base64UrlUnpadded::decode_vec`.
#[verifier::external_body]
pub(crate) fn base64url_decode(s: &str) -> (r: Option<Vec<u8>>)
    ensures
        match r {
            Some(v) => base64url_decoded(s@) == Some(v@),
            None => base64url_decoded(s@) is None,
        },
{
    Base64UrlUnpadded::decode_vec(s).ok()
}

/// Whether 32 bytes are the compressed encoding of an Ed25519 public key
/// (`VerifyingKey::from_bytes` succeeds).
pub uninterp spec fn ed25519_key_valid(key: Seq<u8>) -> bool;

/// Whether `sig` is a valid Ed25519 signature of `msg` under `key`
/// (`Verifier::verify` succeeds).
pub uninterp spec fn ed25519_accepts(key: Seq<u8>, msg: Seq<u8>, sig: Seq<u8>) -> bool;

/// `ed25519_dalek::VerifyingKey::from_bytes` followed by
/// `Verifier::verify`: `None` when the key bytes are not a public key,
/// otherwise whether the signature verifies.
#[verifier::external_body]
pub(crate) fn ed25519_verify(key: &[u8; 32], msg: &[u8], sig: &[u8; 64]) -> (r: Option<bool>)
    ensures
        r is Some <==> ed25519_key_valid(key@),
        r matches Some(ok) ==> ok == ed25519_accepts(key@, msg@, sig@),
{
    match ed25519_dalek::VerifyingKey::from_bytes(key) {
        Ok(vk) => Some(vk.verify(msg, &ed25519_dalek::Signature::from_bytes(sig)).is_ok()),
        Err(_) => None,
    }
}

/// `<[u8; 64]>::try_from(&[u8])`.
#[verifier::external_body]
pub(crate) fn to_signature_array(v: &[u8]) -> (r: Option<[u8; 64]>)
    ensures
        r is Some <==> v@.len() == 64,
        r matches Some(a) ==> a@ == v@,
{
    <[u8; 64]>::try_from(v).ok()
}

/// The outcome of checking an envelope's encoding and signature: the payload
/// bytes, or the first check that failed.
pub open spec fn signed_payload(signed: SignedCommand, key: Seq<u8>) -> core::result::Result<Seq<u8>, CommandRejection> {
    match base64url_decoded(signed.payload@) {
        None => Err(CommandRejection::PayloadEncoding),
        Some(payload) => match base64url_decoded(signed.signature@) {
            None => Err(CommandRejection::SignatureEncoding),
            Some(sig) => if !ed25519_key_valid(key) {
                Err(CommandRejection::VerifyKey)
            } else if sig.len() != 64 {
                Err(CommandRejection::SignatureLength)
            } else if !ed25519_accepts(key, payload, sig) {
                Err(CommandRejection::BadSignature)
            } else {
                Ok(payload)
            },
        },
    }
}

/// Decode an envelope and verify its Ed25519 signature with the dashboard's
/// key; returns the signed payload bytes.
pub fn check_signature(signed: &SignedCommand, verify_key_bytes: &[u8; 32]) -> (r: Result<Vec<u8>, CommandRejection>)
    ensures
        match r {
            Ok(p) => signed_payload(*signed, verify_key_bytes@) == Ok::<Seq<u8>, CommandRejection>(p@),
            Err(e) => signed_payload(*signed, verify_key_bytes@) == Err::<Seq<u8>, CommandRejection>(e),
        },
{
    let payload = match base64url_decode(signed.payload.as_str()) {
        Some(p) => p,
        None => return Err(CommandRejection::PayloadEncoding),
    };
    let sig = match base64url_decode(signed.signature.as_str()) {
        Some(s) => s,
        None => return Err(CommandRejection::SignatureEncoding),
    };
    match to_signature_array(sig.as_slice()) {
        None => {
            // The key is checked before the signature's length.
            let zero = [0u8; 64];
            match ed25519_verify(verify_key_bytes, payload.as_slice(), &zero) {
                None => Err(CommandRejection::VerifyKey),
                Some(_) => Err(CommandRejection::SignatureLength),
            }
        },
        Some(arr) => match ed25519_verify(verify_key_bytes, payload.as_slice(), &arr) {
            None => Err(CommandRejection::VerifyKey),
            Some(false) => Err(CommandRejection::BadSignature),
            Some(true) => Ok(payload),
        },
    }
}

/// The checks on a verified payload: addressed to this agent, and issued
/// within the tolerated clock skew of `now`.
pub open spec fn payload_accepted(agent_id: u128, own_agent_id: u128, timestamp: i64, now: i64) -> core::result::Result<(), CommandRejection> {
    if agent_id != own_agent_id {
        Err(CommandRejection::WrongAgent)
    } else if now - timestamp > MAX_TIMESTAMP_SKEW_SECS || timestamp - now > MAX_TIMESTAMP_SKEW_SECS {
        Err(CommandRejection::Stale)
    } else {
        Ok(())
    }
}

/// Check that a payload is addressed to this agent and is fresh.
pub fn check_payload(agent_id: u128, own_agent_id: u128, timestamp: i64, now: i64) -> (r: Result<(), CommandRejection>)
    ensures
        r == payload_accepted(agent_id, own_agent_id, timestamp, now),
{
    if agent_id != own_agent_id {
        return Err(CommandRejection::WrongAgent);
    }
    let skew: i128 = now as i128 - timestamp as i128;
    if skew > MAX_TIMESTAMP_SKEW_SECS as i128 || -skew > MAX_TIMESTAMP_SKEW_SECS as i128 {
        return Err(CommandRejection::Stale);
    }
    Ok(())
}

} // verus!
