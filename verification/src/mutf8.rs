//! Modified UTF-8, the form that strings take on the wire: UTF-8 in which
//! U+0000 is the two bytes `C0 80` and a character beyond the basic plane is a
//! pair of surrogates of three bytes each.
use vstd::prelude::*;

verus! {

/// The error of `cesu8::from_java_cesu8`.
#[verifier::external_type_specification]
#[verifier::external_body]
pub struct ExCesu8DecodingError(cesu8::Cesu8DecodingError);

/// The Modified UTF-8 bytes that `cesu8::to_java_cesu8` gives for a text.
pub uninterp spec fn java_cesu8_bytes(text: Seq<char>) -> Seq<u8>;

/// The text that `cesu8::from_java_cesu8` gives for bytes, or `None` where it
/// reports that they are not Modified UTF-8.
pub uninterp spec fn java_cesu8_text(bytes: Seq<u8>) -> Option<Seq<char>>;

/// The Modified UTF-8 bytes of a text.
pub open spec fn encoded(text: Seq<char>) -> Seq<u8> {
    if text.len() == 0 {
        Seq::empty()
    } else {
        java_cesu8_bytes(text)
    }
}

/// The text that Modified UTF-8 bytes stand for, or `None` where they are not
/// Modified UTF-8.
pub open spec fn text_of(bytes: Seq<u8>) -> Option<Seq<char>> {
    if bytes.len() == 0 {
        Some(Seq::empty())
    } else {
        java_cesu8_text(bytes)
    }
}

/// The text of a successful decoding.
pub open spec fn decoded<E>(r: Result<String, E>) -> Option<Seq<char>> {
    match r {
        Ok(text) => Some(text@),
        Err(_) => None,
    }
}

/// Calls `cesu8::to_java_cesu8`. The result is a function of the text alone;
/// for the empty text that function hands back the text's own bytes, of which
/// there are none.
#[verifier::external_body]
pub(crate) fn to_java_cesu8(text: &str) -> (bytes: Vec<u8>)
    ensures
        bytes@ == java_cesu8_bytes(text@),
        bytes@ == encoded(text@),
{
    cesu8::to_java_cesu8(text).into_owned()
}

/// Calls `cesu8::from_java_cesu8`. The outcome is a function of the bytes
/// alone; bytes that are valid UTF-8 are handed back as they are, so no bytes
/// give the empty text.
#[verifier::external_body]
pub(crate) fn from_java_cesu8(bytes: &[u8]) -> (r: Result<String, cesu8::Cesu8DecodingError>)
    ensures
        decoded(r) == java_cesu8_text(bytes@),
        decoded(r) == text_of(bytes@),
{
    match cesu8::from_java_cesu8(bytes) {
        Ok(t) => Ok(t.into_owned()),
        Err(e) => Err(e),
    }
}

/// Whether a text comes back from its own Modified UTF-8 bytes.
pub open spec fn survives(text: Seq<char>) -> bool {
    text_of(encoded(text)) == Some(text)
}

} // verus!
