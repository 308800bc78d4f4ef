//! Base64 text for binary backups, through the `base64` crate's standard engine
//! (RFC 4648 alphabet, with `=` padding, canonical decoding).

use base64::Engine;
use vstd::prelude::*;

verus! {

/// What `STANDARD.encode` makes of a byte sequence.
pub uninterp spec fn base64_encode(bytes: Seq<u8>) -> Seq<char>;

/// What `STANDARD.decode` makes of a text: the bytes, or `None` where it reports an error.
pub uninterp spec fn base64_decode(text: Seq<char>) -> Option<Seq<u8>>;

/// A character of the standard alphabet or the padding character.
pub open spec fn is_base64_char(c: char) -> bool {
    ('A' <= c && c <= 'Z') || ('a' <= c && c <= 'z') || ('0' <= c && c <= '9') || c == '+' || c
        == '/' || c == '='
}

/// Calls `base64::engine::general_purpose::STANDARD.encode`. Claimed, as the crate documents
/// and tests: the text is four characters for every started group of three bytes, drawn
/// from the standard alphabet and `=`, and decoding it gives the bytes back.
#[verifier::external_body]
pub(crate) fn encode_standard(bytes: &Vec<u8>) -> (text: String)
    ensures
        text@ == base64_encode(bytes@),
        text@.len() == 4 * ((bytes@.len() + 2) / 3),
        forall|i: int| 0 <= i < text@.len() ==> is_base64_char(#[trigger] text@[i]),
        base64_decode(text@) == Some(bytes@),
{
    base64::engine::general_purpose::STANDARD.encode(bytes)
}

/// Calls `base64::engine::general_purpose::STANDARD.decode`; an error becomes `None`.
#[verifier::external_body]
pub(crate) fn decode_standard(text: &str) -> (r: Option<Vec<u8>>)
    ensures
        match r {
            Some(b) => base64_decode(text@) == Some(b@),
            None => base64_decode(text@) is None,
        },
{
    base64::engine::general_purpose::STANDARD.decode(text).ok()
}

} // verus!
