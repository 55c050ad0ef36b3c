//! Turning the bytes of a typed line into the text stored in flash.

use vstd::prelude::*;

verus! {

/// The text that `String::from_utf8_lossy` makes of `bytes`.
pub uninterp spec fn utf8_lossy_of(bytes: Seq<u8>) -> Seq<char>;

/// Whether every byte is ASCII.
pub open spec fn all_ascii(bytes: Seq<u8>) -> bool {
    forall|i: int| 0 <= i < bytes.len() ==> #[trigger] bytes[i] < 128
}

/// `String::from_utf8_lossy`, made owned. The result is tied to the bytes
/// through the name [`utf8_lossy_of`]; beyond that the contract states only
/// what the documentation gives for ASCII input, which is valid UTF-8 and
/// comes back character for byte.
#[verifier::external_body]
fn from_utf8_lossy(bytes: &[u8]) -> (r: String)
    ensures
        r@ == utf8_lossy_of(bytes@),
        all_ascii(bytes@) ==> r@ == bytes@.map_values(|b: u8| b as char),
{
    String::from_utf8_lossy(bytes).into_owned()
}

/// The value to store for a line typed on the console: its bytes read as
/// UTF-8, with each invalid sequence replaced by U+FFFD.
pub fn decode_input_line(bytes: &[u8]) -> (r: String)
    ensures
        r@ == utf8_lossy_of(bytes@),
        all_ascii(bytes@) ==> r@ == bytes@.map_values(|b: u8| b as char),
{
    from_utf8_lossy(bytes)
}

} // verus!
