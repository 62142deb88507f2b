//! Conversions from bytes to strings (`String::from_utf8`,
//! `String::from_utf8_lossy`).

use vstd::prelude::*;
use vstd::utf8::*;

verus! {

/// Calls `String::from_utf8`. As std documents it, the call succeeds exactly
/// when the bytes are valid UTF-8, and the string then holds the characters
/// those bytes encode; on failure the bytes come back unchanged
/// (`FromUtf8Error::into_bytes`).
#[verifier::external_body]
pub(crate) fn string_from_utf8(bytes: Vec<u8>) -> (r: Result<String, Vec<u8>>)
    ensures
        match r {
            Ok(s) => valid_utf8(bytes@) && s@ == decode_utf8(bytes@),
            Err(b) => !valid_utf8(bytes@) && b@ == bytes@,
        },
{
    String::from_utf8(bytes).map_err(|e| e.into_bytes())
}

/// What `String::from_utf8_lossy` makes of `bytes`: the decoded characters,
/// with each invalid sequence replaced by U+FFFD.
pub uninterp spec fn utf8_lossy(bytes: Seq<u8>) -> Seq<char>;

/// Calls `String::from_utf8_lossy` (and `Cow::into_owned`). Its result is
/// named `utf8_lossy` of the bytes; which replacement characters it holds
/// for invalid input is left to std and not stated here.
#[verifier::external_body]
pub(crate) fn string_from_utf8_lossy(bytes: &[u8]) -> (r: String)
    ensures
        r@ == utf8_lossy(bytes@),
{
    String::from_utf8_lossy(bytes).into_owned()
}

/// The text that a byte string stands for: its characters where it is
/// valid UTF-8, and the lossy decoding otherwise (as
/// `String::from_utf8(..).unwrap_or_else(|e| from_utf8_lossy(..))` gives).
pub open spec fn bytes_to_text(bytes: Seq<u8>) -> Seq<char> {
    if valid_utf8(bytes) {
        decode_utf8(bytes)
    } else {
        utf8_lossy(bytes)
    }
}

/// Converts bytes to a string, replacing invalid UTF-8 as
/// `String::from_utf8_lossy` does.
pub fn bytes_into_text(bytes: Vec<u8>) -> (r: String)
    ensures
        r@ == bytes_to_text(bytes@),
{
    let ghost b = bytes@;
    match string_from_utf8(bytes) {
        Ok(s) => s,
        Err(back) => string_from_utf8_lossy(back.as_slice()),
    }
}

} // verus!
