//! Base64 as the protocol uses it for every binary payload: the standard
//! alphabet, with padding.

use vstd::prelude::*;
use base64::Engine;

verus! {

/// The base64 text of `bytes`, in the standard alphabet with padding.
pub uninterp spec fn base64_encoded(bytes: Seq<u8>) -> Seq<char>;

/// The bytes that `text` decodes to, or `None` where it is not valid
/// base64 in the standard alphabet with padding.
pub uninterp spec fn base64_decoded(text: Seq<char>) -> Option<Seq<u8>>;

#[verifier::external_type_specification]
#[verifier::external_body]
pub struct ExDecodeError(base64::DecodeError);

/// Encodes bytes as base64 text.
///
/// Trusted: calls `Engine::encode` on `base64::engine::general_purpose::STANDARD`.
/// The contract only names the text that comes back. The bound keeps the
/// length of that text, four characters for every three bytes, within what
/// a `String` can hold.
#[verifier::external_body]
pub(crate) fn encode_base64(bytes: &[u8]) -> (text: String)
    requires
        bytes@.len() <= usize::MAX / 4,
    ensures
        text@ == base64_encoded(bytes@),
{
    base64::engine::general_purpose::STANDARD.encode(bytes)
}

/// Decodes base64 text.
///
/// Trusted: calls `Engine::decode` on `base64::engine::general_purpose::STANDARD`,
/// which returns the decoded bytes or an error for text that is not valid.
/// The contract only names what comes back.
#[verifier::external_body]
pub(crate) fn decode_base64(text: &str) -> (r: Result<Vec<u8>, base64::DecodeError>)
    ensures
        match r {
            Ok(bytes) => base64_decoded(text@) == Some(bytes@),
            Err(_) => base64_decoded(text@) is None,
        },
{
    base64::engine::general_purpose::STANDARD.decode(text)
}

/// Decodes base64 text; `None` where the text is not valid.
pub fn decode_payload(text: &str) -> (r: Option<Vec<u8>>)
    ensures
        match r {
            Some(bytes) => base64_decoded(text@) == Some(bytes@),
            None => base64_decoded(text@) is None,
        },
{
    match decode_base64(text) {
        Ok(bytes) => Some(bytes),
        Err(_) => None,
    }
}

/// The text that carries `bytes` in a response: empty for no bytes, their
/// base64 otherwise.
pub open spec fn payload_text(bytes: Seq<u8>) -> Seq<char> {
    if bytes.len() == 0 {
        Seq::empty()
    } else {
        base64_encoded(bytes)
    }
}

/// Encodes the bytes of a chunk for a response.
pub fn encode_payload(bytes: &[u8]) -> (text: String)
    requires
        bytes@.len() <= usize::MAX / 4,
    ensures
        text@ == payload_text(bytes@),
{
    if bytes.len() == 0 {
        String::new()
    } else {
        encode_base64(bytes)
    }
}

} // verus!
