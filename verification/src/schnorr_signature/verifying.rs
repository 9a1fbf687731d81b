//! The verifying side.

use crate::field::scalar_modulus;
use crate::group::Point;
use crate::schnorr_signature::key::PublicKey;
use crate::schnorr_signature::signature::{valid_signature, Signature};
use crate::schnorr_signature::util::challenge_scalar;
use vstd::arithmetic::div_mod::{lemma_add_mod_noop_right, lemma_small_mod};
use vstd::prelude::*;

verus! {

pub struct Verifier {
    pub pk: PublicKey,
    pub g: Point,
}

impl Verifier {
    /// The verifier holds a public key and the generator.
    pub open spec fn wf(self) -> bool {
        self.pk.wf() && self.g.wf() && self.g.dlog() == 1
    }

    pub fn new(pk: PublicKey) -> (verifier: Verifier)
        requires
            pk.wf(),
        ensures
            verifier.wf(),
            verifier.pk == pk,
    {
        Verifier { pk, g: Point::generator() }
    }

    pub fn get_generator(&self) -> (g: Point)
        ensures
            g == self.g,
    {
        self.g
    }

    pub fn get_public_key(&self) -> (pk: PublicKey)
        ensures
            pk == self.pk,
    {
        self.pk
    }

    /// Accepts the signature just when `s * g = R + H(R, m) * pk`.
    pub fn verify(&self, message: &Vec<u8>, signature: Signature) -> (b: bool)
        requires
            self.wf(),
            signature.wf(),
        ensures
            b == valid_signature(self.pk, message@, signature),
    {
        let c = challenge_scalar(&signature.r_g, message.as_slice());
        let lhs = self.g.mul(&signature.s);
        let rhs = signature.r_g.add(&self.pk.pk.mul(&c));
        proof {
            lemma_small_mod(signature.s@, scalar_modulus());
            lemma_add_mod_noop_right(
                signature.r_g.dlog() as int,
                (self.pk.pk.dlog() * c@) as int,
                scalar_modulus() as int,
            );
            assert(self.pk.pk.dlog() * c@ == c@ * self.pk.pk.dlog()) by (nonlinear_arith);
        }
        lhs.equals(&rhs)
    }
}

} // verus!
