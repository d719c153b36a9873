use vstd::prelude::*;

use sha2::Digest;

verus! {

/// The SHA-256 digest of bytes, in lower-case hexadecimal digits.
pub uninterp spec fn sha256_text(bytes: Seq<u8>) -> Seq<char>;

/// Whether a character is a lower-case hexadecimal digit.
pub open spec fn is_hex_digit(c: char) -> bool {
    '0' <= c <= '9' || 'a' <= c <= 'f'
}

/// Computes a digest with `sha2::Sha256::digest` and writes it with the `LowerHex` of its array.
/// The digest is a function of the bytes; it has 32 bytes, each of which is written as two
/// lower-case hexadecimal digits.
#[verifier::external_body]
pub(crate) fn hex_digest(bytes: &[u8]) -> (text: String)
    ensures
        text@ == sha256_text(bytes@),
        text@.len() == 64,
        forall|i: int| 0 <= i < 64 ==> is_hex_digit(#[trigger] text@[i]),
{
    format!("{:x}", sha2::Sha256::digest(bytes))
}

} // verus!
