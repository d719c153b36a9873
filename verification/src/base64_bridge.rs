use vstd::prelude::*;

use base64::Engine;

verus! {

/// The base64 form of bytes, in the standard alphabet with padding.
pub uninterp spec fn base64_text(bytes: Seq<u8>) -> Seq<char>;

/// The bytes that a text is the base64 form of, in the alphabet for URLs without padding, where
/// it is one.
pub uninterp spec fn base64_bytes(text: Seq<char>) -> Option<Seq<u8>>;

/// Wraps `encode` of `base64::engine::general_purpose::STANDARD`. The form is a function of the
/// bytes. The call panics where the form has more bytes than a buffer can hold; it has less than
/// twice as many as are encoded, or else no more than eight.
#[verifier::external_body]
pub(crate) fn encode_base64(bytes: &[u8]) -> (text: String)
    requires
        bytes@.len() <= isize::MAX / 2,
    ensures
        text@ == base64_text(bytes@),
{
    base64::engine::general_purpose::STANDARD.encode(bytes)
}

/// Wraps `decode` of `base64::engine::general_purpose::URL_SAFE_NO_PAD`. The bytes, and whether
/// there are any, are a function of the text. Of the error nothing is kept.
#[verifier::external_body]
pub(crate) fn decode_base64_url(text: &str) -> (bytes: Option<Vec<u8>>)
    ensures
        (match bytes {
            Some(bytes) => base64_bytes(text@) == Some(bytes@),
            None => base64_bytes(text@) is None,
        }),
{
    base64::engine::general_purpose::URL_SAFE_NO_PAD.decode(text).ok()
}

} // verus!
