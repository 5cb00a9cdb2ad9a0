//! Envelope encryption: data keys (DEKs) wrapped by a key-encryption key
//! (KEK) with AES-256-GCM.  A sealed message is the 12-byte nonce followed
//! by the ciphertext and its 16-byte tag.
use vstd::prelude::*;
use vstd::slice::{slice_subrange, slice_to_vec};
use aes_gcm::aead::{Aead, AeadCore, KeyInit, OsRng};
use aes_gcm::{Aes256Gcm, Key, Nonce};

verus! {

/// Why a sealing or opening operation failed.
#[derive(Debug, Clone, Copy, PartialEq, Eq)]
pub enum KekError {
    /// The message is too long for AES-GCM.
    Encrypt,
    /// The ciphertext is not authentic under the key.
    Decrypt,
    /// The sealed message is shorter than a nonce.
    CiphertextTooShort,
    /// A decrypted data key does not have 32 bytes.
    WrongDekLength,
}

/// AES-256-GCM encryption (no associated data): ciphertext with its tag.
pub uninterp spec fn gcm_seal(key: Seq<u8>, nonce: Seq<u8>, plaintext: Seq<u8>) -> Seq<u8>;

/// AES-256-GCM decryption (no associated data): the plaintext, or `None`
/// when the ciphertext does not authenticate.
pub uninterp spec fn gcm_open(key: Seq<u8>, nonce: Seq<u8>, ciphertext: Seq<u8>) -> Option<Seq<u8>>;

/// Largest plaintext AES-GCM accepts (`aes_gcm::P_MAX`).
pub open spec fn gcm_max_plaintext() -> nat {
    0x10_0000_0000
}

/// `Aes256Gcm::generate_nonce(&mut OsRng)`: twelve random bytes.
#[verifier::external_body]
fn random_nonce() -> (r: [u8; 12]) {
    let n = Aes256Gcm::generate_nonce(&mut OsRng);
    let mut out = [0u8; 12];
    out.copy_from_slice(n.as_slice());
    out
}

/// `rand::RngCore::fill_bytes` on `OsRng`: thirty-two random bytes.
#[verifier::external_body]
fn random_key() -> (r: [u8; 32]) {
    let mut dek = [0u8; 32];
    rand::RngCore::fill_bytes(&mut rand::rngs::OsRng, &mut dek);
    dek
}

/// `Aead::encrypt` of `Aes256Gcm`: fails only on plaintexts longer than
/// `P_MAX`; the result is the ciphertext followed by the 16-byte tag, and
/// decrypting it under the same key and nonce gives the plaintext back.
#[verifier::external_body]
fn gcm_encrypt(key: &[u8; 32], nonce: &[u8; 12], plaintext: &[u8]) -> (r: Option<Vec<u8>>)
    ensures
        r is Some <==> plaintext@.len() <= gcm_max_plaintext(),
        r matches Some(c) ==> c@ == gcm_seal(key@, nonce@, plaintext@)
            && c@.len() == plaintext@.len() + 16
            && gcm_open(key@, nonce@, c@) == Some(plaintext@),
{
    let cipher = Aes256Gcm::new(Key::<Aes256Gcm>::from_slice(key));
    cipher.encrypt(Nonce::from_slice(nonce), plaintext).ok()
}

/// `Aead::decrypt` of `Aes256Gcm`.
#[verifier::external_body]
fn gcm_decrypt(key: &[u8; 32], nonce: &[u8], ciphertext: &[u8]) -> (r: Option<Vec<u8>>)
    requires
        nonce@.len() == 12,
    ensures
        match r {
            Some(p) => gcm_open(key@, nonce@, ciphertext@) == Some(p@),
            None => gcm_open(key@, nonce@, ciphertext@) is None,
        },
{
    let cipher = Aes256Gcm::new(Key::<Aes256Gcm>::from_slice(key));
    cipher.decrypt(Nonce::from_slice(nonce), ciphertext).ok()
}

/// `<[u8; 32]>::try_from(&[u8])`: the array holding `v` when it has 32 bytes.
#[verifier::external_body]
pub(crate) fn to_key_array(v: &[u8]) -> (r: Option<[u8; 32]>)
    ensures
        r is Some <==> v@.len() == 32,
        r matches Some(a) ==> a@ == v@,
{
    <[u8; 32]>::try_from(v).ok()
}

/// The sealed form of `plaintext` under `key` with `nonce`.
pub open spec fn sealed(key: Seq<u8>, nonce: Seq<u8>, plaintext: Seq<u8>) -> Seq<u8> {
    nonce + gcm_seal(key, nonce, plaintext)
}

/// What opening a sealed message gives.
pub open spec fn opened(key: Seq<u8>, data: Seq<u8>) -> core::result::Result<Seq<u8>, KekError> {
    if data.len() < 12 {
        Err(KekError::CiphertextTooShort)
    } else {
        match gcm_open(key, data.take(12), data.skip(12)) {
            Some(p) => Ok(p),
            None => Err(KekError::Decrypt),
        }
    }
}

fn encrypt_aes_gcm(plaintext: &[u8], key_bytes: &[u8; 32]) -> (r: Result<Vec<u8>, KekError>)
    ensures
        r is Ok <==> plaintext@.len() <= gcm_max_plaintext(),
        r matches Ok(out) ==> exists|nonce: Seq<u8>| nonce.len() == 12 && out@ == sealed(key_bytes@, nonce, plaintext@),
        r matches Ok(out) ==> opened(key_bytes@, out@) == Ok::<Seq<u8>, KekError>(plaintext@),
        r matches Ok(out) ==> out@.len() == plaintext@.len() + 28,
        r matches Err(e) ==> e == KekError::Encrypt,
{
    let nonce = random_nonce();
    match gcm_encrypt(key_bytes, &nonce, plaintext) {
        Some(ct) => {
            // nonce (12 bytes) || ciphertext
            let mut out = slice_to_vec(nonce.as_slice());
            let mut c = ct;
            out.append(&mut c);
            assert(out@ == sealed(key_bytes@, nonce@, plaintext@));
            assert(out@.take(12) =~= nonce@);
            assert(out@.skip(12) =~= ct@);
            Ok(out)
        },
        None => Err(KekError::Encrypt),
    }
}

fn decrypt_aes_gcm(data: &[u8], key_bytes: &[u8; 32]) -> (r: Result<Vec<u8>, KekError>)
    ensures
        match r {
            Ok(p) => opened(key_bytes@, data@) == Ok::<Seq<u8>, KekError>(p@),
            Err(e) => opened(key_bytes@, data@) == Err::<Seq<u8>, KekError>(e),
        },
{
    if data.len() < 12 {
        return Err(KekError::CiphertextTooShort);
    }
    let nonce_bytes = slice_subrange(data, 0, 12);
    let ciphertext = slice_subrange(data, 12, data.len());
    assert(nonce_bytes@ =~= data@.take(12));
    assert(ciphertext@ =~= data@.skip(12));
    match gcm_decrypt(key_bytes, nonce_bytes, ciphertext) {
        Some(p) => Ok(p),
        None => Err(KekError::Decrypt),
    }
}

/// A fresh random data key.
pub fn gen_dek() -> (r: [u8; 32]) {
    random_key()
}

pub fn encrypt_dek(dek: &[u8; 32], kek: &[u8; 32]) -> (r: Result<Vec<u8>, KekError>)
    ensures
        r matches Ok(out) && exists|nonce: Seq<u8>| nonce.len() == 12 && out@ == sealed(kek@, nonce, dek@),
        r matches Ok(out) && opened(kek@, out@) == Ok::<Seq<u8>, KekError>(dek@),
        r matches Ok(out) && out@.len() == 60,
{
    encrypt_aes_gcm(dek.as_slice(), kek)
}

pub fn decrypt_dek(ciphertext: &[u8], kek: &[u8; 32]) -> (r: Result<[u8; 32], KekError>)
    ensures
        match opened(kek@, ciphertext@) {
            Ok(p) => if p.len() == 32 {
                r matches Ok(a) && a@ == p
            } else {
                r == Err::<[u8; 32], KekError>(KekError::WrongDekLength)
            },
            Err(e) => r == Err::<[u8; 32], KekError>(e),
        },
{
    let plain = decrypt_aes_gcm(ciphertext, kek)?;
    match to_key_array(plain.as_slice()) {
        Some(a) => Ok(a),
        None => Err(KekError::WrongDekLength),
    }
}

pub fn encrypt_with_dek(plaintext: &[u8], dek: &[u8; 32]) -> (r: Result<Vec<u8>, KekError>)
    ensures
        r is Ok <==> plaintext@.len() <= gcm_max_plaintext(),
        r matches Ok(out) ==> exists|nonce: Seq<u8>| nonce.len() == 12 && out@ == sealed(dek@, nonce, plaintext@),
        r matches Ok(out) ==> opened(dek@, out@) == Ok::<Seq<u8>, KekError>(plaintext@),
        r matches Ok(out) ==> out@.len() == plaintext@.len() + 28,
        r matches Err(e) ==> e == KekError::Encrypt,
{
    encrypt_aes_gcm(plaintext, dek)
}

pub fn decrypt_with_dek(ciphertext: &[u8], dek: &[u8; 32]) -> (r: Result<Vec<u8>, KekError>)
    ensures
        match r {
            Ok(p) => opened(dek@, ciphertext@) == Ok::<Seq<u8>, KekError>(p@),
            Err(e) => opened(dek@, ciphertext@) == Err::<Seq<u8>, KekError>(e),
        },
{
    decrypt_aes_gcm(ciphertext, dek)
}

} // verus!
