//! Text from bytes, and lower case.

use vstd::prelude::*;
use vstd::string::*;
use vstd::utf8::*;

use crate::text;

verus! {

/// The text that `String::from_utf8_lossy` makes of bytes.
pub uninterp spec fn lossy_text(bytes: Seq<u8>) -> Seq<char>;

/// The text that `str::to_lowercase` makes of a text.
pub uninterp spec fn lower_text(text: Seq<char>) -> Seq<char>;

/// `String::from_utf8_lossy`: the text is a function of the bytes, and bytes that are valid
/// UTF-8 are taken as they are. What takes the place of other bytes is left open.
#[verifier::external_body]
pub(crate) fn decode(bytes: &Vec<u8>) -> (out: String)
    ensures
        out@ == lossy_text(bytes@),
        valid_utf8(bytes@) ==> out@ == decode_utf8(bytes@),
{
    String::from_utf8_lossy(bytes).into_owned()
}

/// `str::to_lowercase`: the result is a function of the text, and in a text of ASCII
/// characters the letters A to Z become a to z. What becomes of others is left open.
#[verifier::external_body]
pub(crate) fn lower_case(text: &str) -> (out: String)
    ensures
        out@ == lower_text(text@),
        is_ascii_chars(text@) ==> out@ == text::lowered(text@),
{
    text.to_lowercase()
}

} // verus!
