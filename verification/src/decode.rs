//! The text that a buffer of bytes stands for.

use vstd::prelude::*;
use vstd::utf8::{decode_utf8, valid_utf8};

verus! {

/// The text that lossy decoding makes of `bytes`: each malformed sequence
/// of bytes gives the replacement character U+FFFD, everything else is
/// decoded as UTF-8.
pub uninterp spec fn lossy_text(bytes: Seq<u8>) -> Seq<char>;

/// Decodes `bytes` with `String::from_utf8_lossy`.
///
/// Nothing is proved of this function. Its contract claims that the text
/// depends on the bytes alone, and that it is the UTF-8 decoding of the
/// bytes where they are valid UTF-8. What stands in place of malformed
/// bytes is not stated.
#[verifier::external_body]
pub(crate) fn decode_lossy(bytes: &[u8]) -> (r: String)
    ensures
        r@ == lossy_text(bytes@),
        valid_utf8(bytes@) ==> r@ == decode_utf8(bytes@),
{
    String::from_utf8_lossy(bytes).into_owned()
}

} // verus!
