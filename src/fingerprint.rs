//! Content fingerprints of tracked files.

use vstd::prelude::*;
use sha1_smol::Sha1;

verus! {

/// The lowercase hexadecimal SHA-1 digest of `content`.
pub uninterp spec fn sha1_hex_of(content: Seq<u8>) -> Seq<char>;

/// Relies on sha1_smol: `Sha1::from` hashes the bytes, and `Digest`'s
/// `Display` writes the digest in hexadecimal. The result is a function of the
/// bytes alone.
#[verifier::external_body]
pub(crate) fn fingerprint(content: &Vec<u8>) -> (r: String)
    ensures
        r@ == sha1_hex_of(content@),
{
    Sha1::from(content).digest().to_string()
}

} // verus!
