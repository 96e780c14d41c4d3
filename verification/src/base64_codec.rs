//! The standard base64 engine (`base64::engine::general_purpose::STANDARD`),
//! used for the ciphertext blobs and the decrypted plaintext.

use vstd::prelude::*;

verus! {

/// What `STANDARD.decode` gives for the text `input`: the decoded bytes, or
/// the text of the `DecodeError` it reports.
pub uninterp spec fn base64_standard_decode(input: Seq<char>) -> Result<Seq<u8>, Seq<char>>;

/// What `STANDARD.encode` gives for `input`.
pub uninterp spec fn base64_standard_encode(input: Seq<u8>) -> Seq<char>;

/// A character of the standard base64 alphabet, or the padding `=`.
pub open spec fn is_base64_char(c: char) -> bool {
    ||| 'A' <= c <= 'Z'
    ||| 'a' <= c <= 'z'
    ||| '0' <= c <= '9'
    ||| c == '+'
    ||| c == '/'
    ||| c == '='
}

/// The bytes or error text of a decoding result.
pub open spec fn decoded_view(r: Result<Vec<u8>, String>) -> Result<Seq<u8>, Seq<char>> {
    match r {
        Ok(bytes) => Ok(bytes@),
        Err(msg) => Err(msg@),
    }
}

/// `Engine::decode` on `base64::engine::general_purpose::STANDARD`; the error
/// is turned into its display text. The result is named
/// [`base64_standard_decode`]; which inputs decode is not stated beyond that.
#[verifier::external_body]
pub(crate) fn decode_base64(input: &str) -> (r: Result<Vec<u8>, String>)
    ensures
        decoded_view(r) == base64_standard_decode(input@),
{
    base64::Engine::decode(&base64::engine::general_purpose::STANDARD, input).map_err(|e| e.to_string())
}

/// `Engine::encode` on `base64::engine::general_purpose::STANDARD`. The
/// result is named [`base64_standard_encode`]; it is written in the
/// standard alphabet with `=` padding, and the same engine decodes it back
/// to the input. The encoded length is not stated.
#[verifier::external_body]
pub(crate) fn encode_base64(bytes: &[u8]) -> (r: String)
    requires
        bytes.len() <= usize::MAX / 2,
    ensures
        r@ == base64_standard_encode(bytes@),
        forall|i: int| 0 <= i < r@.len() ==> is_base64_char(#[trigger] r@[i]),
        base64_standard_decode(r@) =~= Ok(bytes@),
{
    base64::Engine::encode(&base64::engine::general_purpose::STANDARD, bytes)
}

} // verus!
