//! Text operations of the standard library that the decoders rest on.

use vstd::prelude::*;
use vstd::utf8::{decode_utf8, valid_utf8};

verus! {

/// The text that a lossy UTF-8 decoding of `bytes` gives: the characters that
/// the well-formed parts encode, with U+FFFD standing for each ill-formed part.
pub uninterp spec fn lossy_text(bytes: Seq<u8>) -> Seq<char>;

/// Strict decoding, by `String::from_utf8` of the standard library.
///
/// Taken on trust: the call succeeds exactly on well-formed UTF-8, and the
/// string that it then gives holds the characters that the bytes encode.
#[verifier::external_body]
pub(crate) fn decode_strict(bytes: &[u8]) -> (res: Option<String>)
    ensures
        res is Some <==> valid_utf8(bytes@),
        res matches Some(text) ==> text@ == decode_utf8(bytes@),
{
    String::from_utf8(bytes.to_vec()).ok()
}

/// Lossy decoding, by `String::from_utf8_lossy` of the standard library.
///
/// Taken on trust: the string that the call gives depends on the bytes alone.
/// Which string it is, is not stated here: it is the lossy text of the bytes.
#[verifier::external_body]
pub(crate) fn decode_lossy(bytes: &[u8]) -> (res: String)
    ensures
        res@ == lossy_text(bytes@),
{
    String::from_utf8_lossy(bytes).into_owned()
}

/// Appends one character, by `String::push` of the standard library.
///
/// Taken on trust: the string afterwards is the string before, followed by
/// the character.
#[verifier::external_body]
pub(crate) fn push_char(text: &mut String, c: char)
    ensures
        final(text)@ == old(text)@.push(c),
{
    text.push(c)
}

} // verus!
