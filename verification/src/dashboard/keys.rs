//! Keys given to the dashboard as configuration: secrets read from a file
//! or the environment, and 32-byte keys written in standard base64.
use vstd::prelude::*;
use base64ct::{Base64, Encoding};
use crate::dashboard::kek::to_key_array;
use crate::text::{chars_of, string_of, trim, trim_chars};

verus! {

/// The bytes a standard (padded) base64 text decodes to, or `None` when it
/// is not valid standard base64.
pub uninterp spec fn base64_decoded(s: Seq<char>) -> Option<Seq<u8>>;

/// `base64ct::Base64::decode_vec`.
#[verifier::external_body]
fn base64_decode(s: &str) -> (r: Option<Vec<u8>>)
    ensures
        match r {
            Some(v) => base64_decoded(s@) == Some(v@),
            None => base64_decoded(s@) is None,
        },
{
    Base64::decode_vec(s).ok()
}

/// Why a configured key is refused.
#[derive(Debug, Clone, Copy, PartialEq, Eq)]
pub enum KeyError {
    /// The text is not standard base64.
    Encoding,
    /// The decoded key does not have 32 bytes.
    Length,
}

impl KeyError {
    pub open spec fn message_view(self) -> Seq<char> {
        match self {
            KeyError::Encoding => "key must be base64-encoded 32 bytes"@,
            KeyError::Length => "key must be exactly 32 bytes"@,
        }
    }

    pub fn message(&self) -> (r: &'static str)
        ensures
            r@ == self.message_view(),
    {
        match self {
            KeyError::Encoding => "key must be base64-encoded 32 bytes",
            KeyError::Length => "key must be exactly 32 bytes",
        }
    }
}

/// A secret read from a file: its contents without surrounding whitespace
/// (a secret from the environment is taken as it is).
pub fn secret_from_file(contents: &str) -> (r: String)
    ensures
        r@ == trim(contents@),
{
    let v = chars_of(contents);
    let t = trim_chars(v.as_slice());
    string_of(t.as_slice())
}

/// What a configured key text gives: the 32 bytes its trimmed text decodes
/// to from standard base64.
pub open spec fn key32_spec(raw: Seq<char>) -> Result<Seq<u8>, KeyError> {
    match base64_decoded(trim(raw)) {
        None => Err(KeyError::Encoding),
        Some(b) => if b.len() == 32 { Ok(b) } else { Err(KeyError::Length) },
    }
}

/// Reads a 32-byte key written in standard base64.
pub fn decode_key32(raw: &str) -> (r: Result<[u8; 32], KeyError>)
    ensures
        match r {
            Ok(k) => key32_spec(raw@) == Ok::<Seq<u8>, KeyError>(k@),
            Err(e) => key32_spec(raw@) == Err::<Seq<u8>, KeyError>(e),
        },
{
    let t = secret_from_file(raw);
    let bytes = match base64_decode(t.as_str()) {
        Some(b) => b,
        None => return Err(KeyError::Encoding),
    };
    match to_key_array(bytes.as_slice()) {
        Some(a) => Ok(a),
        None => Err(KeyError::Length),
    }
}

} // verus!
