//! SHA-256 digests rendered as lowercase hex, used for privacy-preserving
//! identifiers (emails, tokens, client addresses).
use vstd::prelude::*;
use vstd::slice::slice_to_vec;
use sha2::{Digest, Sha256};

verus! {

/// The SHA-256 digest of `data`.
pub uninterp spec fn sha256_spec(data: Seq<u8>) -> Seq<u8>;

/// `sha2::Sha256::digest`: the digest of `data` (32 bytes, per the
/// algorithm's fixed output size).
#[verifier::external_body]
pub(crate) fn sha256(data: &[u8]) -> (r: Vec<u8>)
    ensures
        r@ == sha256_spec(data@),
        r@.len() == 32,
{
    Sha256::digest(data).to_vec()
}

/// The lowercase hexadecimal digit for `n < 16`.
pub open spec fn hex_digit(n: u8) -> char {
    if n < 10 { ('0' as u8 + n) as char } else { ('a' as u8 + (n - 10)) as char }
}

/// Two lowercase hex digits per byte.
pub open spec fn hex_spec(bytes: Seq<u8>) -> Seq<char>
    decreases bytes.len(),
{
    if bytes.len() == 0 {
        Seq::empty()
    } else {
        hex_spec(bytes.drop_last()) + seq![hex_digit(bytes.last() / 16), hex_digit(bytes.last() % 16)]
    }
}

fn hex_digit_exec(n: u8) -> (c: char)
    requires
        n < 16,
    ensures
        c == hex_digit(n),
{
    if n < 10 { ('0' as u8 + n) as char } else { ('a' as u8 + (n - 10)) as char }
}

/// Lowercase hex rendering of `bytes`.
pub fn hex_encode(bytes: &[u8]) -> (r: String)
    ensures
        r@ == hex_spec(bytes@),
{
    let mut s = String::new();
    let mut i: usize = 0;
    assert(bytes@.take(0) =~= Seq::<u8>::empty());
    while i < bytes.len()
        invariant
            i <= bytes@.len(),
            s@ == hex_spec(bytes@.take(i as int)),
        decreases bytes@.len() - i,
    {
        assert(bytes@.take(i + 1).drop_last() =~= bytes@.take(i as int));
        let b = bytes[i];
        crate::text::push_char(&mut s, hex_digit_exec(b / 16));
        crate::text::push_char(&mut s, hex_digit_exec(b % 16));
        assert(s@ =~= hex_spec(bytes@.take(i + 1)));
        i = i + 1;
    }
    assert(bytes@.take(bytes@.len() as int) =~= bytes@);
    s
}

pub fn sha256_hex(data: &[u8]) -> (r: String)
    ensures
        r@ == hex_spec(sha256_spec(data@)),
{
    let d = sha256(data);
    hex_encode(d.as_slice())
}

/// Unicode lowercase mapping of a string.
pub uninterp spec fn lowercase_spec(s: Seq<char>) -> Seq<char>;

/// `str::to_lowercase`: the Unicode lowercase mapping of `s`.
#[verifier::external_body]
pub(crate) fn to_lowercase(s: &str) -> (r: String)
    ensures
        r@ == lowercase_spec(s@),
{
    s.to_lowercase()
}

pub fn email_hash(email: &str, pepper: &str) -> (r: String)
    ensures
        r@ == hex_spec(sha256_spec(vstd::utf8::encode_utf8(lowercase_spec(email@)) + vstd::utf8::encode_utf8(pepper@))),
{
    let lower = to_lowercase(email);
    let mut data = slice_to_vec(lower.as_str().as_bytes());
    let mut p = slice_to_vec(pepper.as_bytes());
    data.append(&mut p);
    sha256_hex(data.as_slice())
}

pub fn token_hash(token: &[u8], pepper: &str) -> (r: String)
    ensures
        r@ == hex_spec(sha256_spec(token@ + vstd::utf8::encode_utf8(pepper@))),
{
    let mut data = slice_to_vec(token);
    let mut p = slice_to_vec(pepper.as_bytes());
    data.append(&mut p);
    sha256_hex(data.as_slice())
}

/// Hex of the first 16 bytes of the digest of `s`.
fn short_hash(s: &str) -> (r: String)
    ensures
        r@ == hex_spec(sha256_spec(vstd::utf8::encode_utf8(s@)).take(16)),
{
    let d = sha256(s.as_bytes());
    let half = vstd::slice::slice_subrange(d.as_slice(), 0, 16);
    assert(d@.subrange(0, 16) =~= d@.take(16));
    hex_encode(half)
}

pub fn ip_hash(ip: &str) -> (r: String)
    ensures
        r@ == hex_spec(sha256_spec(vstd::utf8::encode_utf8(ip@)).take(16)),
{
    short_hash(ip)
}

pub fn ua_hash(ua: &str) -> (r: String)
    ensures
        r@ == hex_spec(sha256_spec(vstd::utf8::encode_utf8(ua@)).take(16)),
{
    short_hash(ua)
}

} // verus!
