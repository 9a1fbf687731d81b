//! Hashing of byte strings into the scalar field.

use crate::field::{le_bytes_value, scalar_modulus, Scalar};
use ark_crypto_primitives::crh::sha256::Sha256;
use ark_crypto_primitives::crh::CRHScheme;
use vstd::prelude::*;

verus! {

/// The SHA-256 digest of a byte string.
pub uninterp spec fn sha256(data: Seq<u8>) -> Seq<u8>;

/// The scalar that a byte string hashes to: its digest, read as a
/// little-endian integer and reduced modulo the group order.
pub open spec fn hash_to_scalar(bytes: Seq<u8>) -> nat {
    le_bytes_value(sha256(bytes)) % scalar_modulus()
}

pub struct Hash256;

impl Hash256 {
    /// Hashes the bytes and turns the digest into a scalar.
    pub fn hash_bytes(bytes: &[u8]) -> (r: Scalar)
        ensures
            r.wf(),
            r@ == hash_to_scalar(bytes@),
    {
        let digest = sha256_digest(bytes);
        Scalar::from_le_bytes_mod_order(digest.as_slice())
    }
}

/// `Sha256::evaluate` of the `CRHScheme` trait, which takes no parameters
/// and never fails: the SHA-256 digest of the input.
#[verifier::external_body]
fn sha256_digest(bytes: &[u8]) -> (digest: Vec<u8>)
    ensures
        digest@ == sha256(bytes@),
{
    Sha256::evaluate(&(), bytes).unwrap()
}

} // verus!
