//! Turning string-record bodies into text.
use vstd::prelude::*;
use vstd::utf8::{decode_utf8, valid_utf8};

verus! {

/// The text that lossy UTF-8 decoding makes of `b`.
pub uninterp spec fn lossy_text(b: Seq<u8>) -> Seq<char>;

/// The text of a string record's body: the body itself where it is valid
/// UTF-8, its lossy decoding otherwise.
pub open spec fn string_text(b: Seq<u8>) -> Seq<char> {
    if valid_utf8(b) {
        decode_utf8(b)
    } else {
        lossy_text(b)
    }
}

/// Relies on `String::from_utf8_lossy`: decodes the bytes, putting U+FFFD in place
/// of each invalid sequence, and keeps valid UTF-8 as it stands.
#[verifier::external_body]
pub(crate) fn decode_lossy(b: &Vec<u8>) -> (r: String)
    ensures
        valid_utf8(b@) ==> r@ == decode_utf8(b@),
        !valid_utf8(b@) ==> r@ == lossy_text(b@),
{
    String::from_utf8_lossy(b.as_slice()).into_owned()
}

} // verus!
