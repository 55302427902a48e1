//! SHA-512, the hash behind every derivation of the protocol.

use sha2::{Digest, Sha512};
use vstd::prelude::*;

verus! {

/// The SHA-512 digest of `m`.
pub uninterp spec fn sha512_of(m: Seq<u8>) -> Seq<u8>;

/// Relies on `sha2::Sha512::digest`, whose output is 64 bytes long.
#[verifier::external_body]
pub(crate) fn sha512(m: &[u8]) -> (r: Vec<u8>)
    ensures
        r@ == sha512_of(m@),
        r@.len() == 64,
{
    Sha512::digest(m).to_vec()
}

} // verus!
