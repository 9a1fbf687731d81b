//! The signing side.

use crate::field::{scalar_modulus, Scalar};
use crate::group::Point;
use crate::schnorr_signature::key::{key_pair, PublicKey, SecretKey};
use crate::schnorr_signature::signature::{valid_signature, Signature};
use crate::schnorr_signature::util::{challenge, challenge_scalar};
use rand::rngs::StdRng;
use vstd::arithmetic::div_mod::{lemma_add_mod_noop_right, lemma_small_mod};
use vstd::prelude::*;

verus! {

pub struct Signer {
    pub sk: SecretKey,
    pub g: Point,
}

/// The signature is what the holder of `sk` gives on the message with the
/// nonce `r`: `R = r * g` and `s = r + H(R, m) * sk`.
pub open spec fn signed_with_nonce(
    sk: SecretKey,
    message: Seq<u8>,
    r: nat,
    signature: Signature,
) -> bool {
    &&& signature.wf()
    &&& signature.r_g.dlog() == r
    &&& signature.s@ == (r + challenge(signature.r_g, message) * sk.sk@) % scalar_modulus()
}

/// The signature is one that the holder of `sk` gives on the message, with
/// whatever nonce.
pub open spec fn signed_by(sk: SecretKey, message: Seq<u8>, signature: Signature) -> bool {
    signed_with_nonce(sk, message, signature.r_g.dlog(), signature)
}

impl Signer {
    /// The signer holds a secret key and the generator.
    pub open spec fn wf(self) -> bool {
        self.sk.wf() && self.g.wf() && self.g.dlog() == 1
    }

    pub fn new(sk: SecretKey) -> (signer: Signer)
        requires
            sk.wf(),
        ensures
            signer.wf(),
            signer.sk == sk,
    {
        Signer { sk, g: Point::generator() }
    }

    pub fn get_generator(&self) -> (g: Point)
        ensures
            g == self.g,
    {
        self.g
    }

    pub fn get_secret_key(&self) -> (sk: SecretKey)
        ensures
            sk == self.sk,
    {
        self.sk
    }

    /// Signs the message with the given nonce.
    pub fn sign_with_nonce(&self, message: &Vec<u8>, r: &Scalar) -> (signature: Signature)
        requires
            self.wf(),
            r.wf(),
        ensures
            signed_with_nonce(self.sk, message@, r@, signature),
    {
        let r_g = self.g.mul(r);
        let c = challenge_scalar(&r_g, message.as_slice());
        let s = r.add(&c.mul(&self.sk.sk));
        proof {
            lemma_small_mod(r@, scalar_modulus());
            lemma_add_mod_noop_right(r@ as int, (c@ * self.sk.sk@) as int, scalar_modulus() as int);
        }
        Signature { s, r_g }
    }

    /// Signs the message with a nonce drawn from `rng`.
    pub fn sign(&self, message: &Vec<u8>, rng: &mut StdRng) -> (signature: Signature)
        requires
            self.wf(),
        ensures
            signed_by(self.sk, message@, signature),
    {
        let r = Scalar::random(rng);
        self.sign_with_nonce(message, &r)
    }
}

/// A signature that the holder of the secret key gives on a message is valid
/// for that message under the public key.
pub proof fn lemma_signature_verifies(
    sk: SecretKey,
    pk: PublicKey,
    message: Seq<u8>,
    signature: Signature,
)
    requires
        key_pair(sk, pk),
        signed_by(sk, message, signature),
    ensures
        valid_signature(pk, message, signature),
{
}

} // verus!
