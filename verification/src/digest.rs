//! The part of the `sha2` crate that the library rests on.
use vstd::prelude::*;

use sha2::Digest;

verus! {

/// The SHA-512 digest of a message.
pub uninterp spec fn sha512_digest(message: Seq<u8>) -> Seq<u8>;

/// The SHA-256 digest of a message.
pub uninterp spec fn sha256_digest(message: Seq<u8>) -> Seq<u8>;

/// `Sha512::digest` computes the SHA-512 digest of the message, 64 bytes.
#[verifier::external_body]
pub(crate) fn sha512(message: &[u8]) -> (r: Vec<u8>)
    ensures
        r@ == sha512_digest(message@),
        r@.len() == 64,
{
    sha2::Sha512::digest(message).to_vec()
}

/// `Sha256::digest` computes the SHA-256 digest of the message, 32 bytes.
#[verifier::external_body]
pub(crate) fn sha256(message: &[u8]) -> (r: Vec<u8>)
    ensures
        r@ == sha256_digest(message@),
        r@.len() == 32,
{
    sha2::Sha256::digest(message).to_vec()
}

} // verus!
