//! Text in bytes: `std::str::from_utf8`.

use vstd::prelude::*;

verus! {

/// The text in which the error of `std::str::from_utf8` says what is wrong with bytes that are not
/// UTF-8.
pub uninterp spec fn utf8_error_text(bytes: Seq<u8>) -> Seq<char>;

/// `std::str::from_utf8`: the text that the bytes are the UTF-8 encoding of, if they are one; else
/// the text of the error.
#[verifier::external_body]
pub(crate) fn from_utf8(bytes: &[u8]) -> (text: Result<&str, String>)
    ensures
        text is Ok <==> vstd::utf8::valid_utf8(bytes@),
        text matches Ok(s) ==> s@ == vstd::utf8::decode_utf8(bytes@),
        text matches Err(reason) ==> reason@ == utf8_error_text(bytes@),
{
    std::str::from_utf8(bytes).map_err(|err| err.to_string())
}

} // verus!
