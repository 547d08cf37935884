//! Content fingerprints, computed by the `md5` crate.
//!
//! The fingerprint only has to tell apart contents that differ by accident;
//! it is no defence against contents made to collide.

use vstd::prelude::*;

verus! {

/// The MD5 digest of `data`, written as lower-case hexadecimal digits.
pub uninterp spec fn md5_hex(data: Seq<u8>) -> Seq<char>;

/// `md5::compute`, with the digest formatted by its `LowerHex`. The result
/// depends on the bytes alone.
#[verifier::external_body]
pub(crate) fn digest_hex(data: &Vec<u8>) -> (s: String)
    ensures
        s@ == md5_hex(data@),
{
    format!("{:x}", md5::compute(data))
}

} // verus!
