//! Byte codec: base64 encoding and decoding, used to make binary key
//! material text-safe for persistence.

use vstd::prelude::*;

verus! {

/// The base64 text (standard alphabet, padded) that `base64::encode`
/// produces for a byte sequence. The encoding is a function of the bytes
/// alone, so it is left as a name; its inverse is `b64_dec`.
pub uninterp spec fn b64_of(bytes: Seq<u8>) -> Seq<char>;

/// What `base64::decode` returns for a text: the decoded bytes, or `None`
/// where the text is not valid base64.
pub uninterp spec fn b64_dec(text: Seq<char>) -> Option<Seq<u8>>;

/// Encodes bytes as a base64 string.
///
/// Relies on `base64::encode` (standard alphabet, with padding): the result
/// is a function of the bytes alone, and `base64::decode` inverts it.
#[verifier::external_body]
pub fn b64encode(bytes: &[u8]) -> (r: String)
    ensures
        r@ == b64_of(bytes@),
        b64_dec(r@) == Some(bytes@),
{
    base64::encode(bytes)
}

/// Decodes a base64 string; `None` where the text is not valid base64.
///
/// Relies on `base64::decode` (standard alphabet): the result is a function
/// of the text alone.
#[verifier::external_body]
pub fn b64decode(text: &str) -> (r: Option<Vec<u8>>)
    ensures
        r is Some <==> b64_dec(text@) is Some,
        r is Some ==> Some(r->0@) == b64_dec(text@),
{
    match base64::decode(text) {
        Ok(v) => Some(v),
        Err(_) => None,
    }
}

} // verus!
