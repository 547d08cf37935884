//! Bytes as text, encoded by the `base64` crate.

use base64::engine::general_purpose::STANDARD;
use base64::Engine;
use vstd::prelude::*;

verus! {

/// `data` in base64: the standard alphabet, padded with `=`.
pub uninterp spec fn base64_text(data: Seq<u8>) -> Seq<char>;

/// Whether the base64 text of `len` bytes is short enough to be counted in a
/// `usize`: four characters for every three bytes begun.
pub open spec fn fits_base64(len: nat) -> bool {
    (len / 3) * 4 + 4 <= usize::MAX
}

/// Whether the base64 text of the bytes can be made.
pub fn can_encode(data: &Vec<u8>) -> (b: bool)
    ensures
        b == fits_base64(data@.len()),
{
    data.len() / 3 <= (usize::MAX - 4) / 4
}

/// `Engine::encode` of `base64::engine::general_purpose::STANDARD`. The
/// text depends on the bytes alone. The crate panics where it cannot count
/// the length of the text, so such input is left out.
#[verifier::external_body]
pub(crate) fn encode_base64(data: &Vec<u8>) -> (s: String)
    requires
        fits_base64(data@.len()),
    ensures
        s@ == base64_text(data@),
{
    STANDARD.encode(data)
}

} // verus!
