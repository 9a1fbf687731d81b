//! The signer's two rounds.

use crate::blind_schnorr_signature::verifying::BSVerifierFirstRoundMessage;
use crate::field::{scalar_modulus, Scalar};
use crate::group::Point;
use crate::schnorr_signature::key::SecretKey;
use crate::schnorr_signature::signer::Signer;
use rand::rngs::StdRng;
use vstd::arithmetic::div_mod::{lemma_add_mod_noop_right, lemma_small_mod};
use vstd::prelude::*;

verus! {

pub struct BSSigner {
    pub sk: SecretKey,
    pub g: Point,
}

/// The nonce `r`, which the signer keeps.
pub struct BSSignerSecretRandomness {
    pub r: Scalar,
}

/// The commitment `R = r * g`.
pub struct BSSignerFirstRoundMessage {
    pub r_g: Point,
}

/// The response `s = r + c * sk`.
pub struct BSSignerSecondRoundMessage {
    pub s: Scalar,
}

/// The message commits to the nonce.
pub open spec fn commits_to(
    secret_randomness: BSSignerSecretRandomness,
    m1: BSSignerFirstRoundMessage,
) -> bool {
    &&& secret_randomness.r.wf()
    &&& m1.r_g.wf()
    &&& m1.r_g.dlog() == secret_randomness.r@
}

/// The message is the signer's response to the challenge.
pub open spec fn responds_to(
    sk: SecretKey,
    secret_randomness: BSSignerSecretRandomness,
    m1: BSVerifierFirstRoundMessage,
    m2: BSSignerSecondRoundMessage,
) -> bool {
    &&& m2.s.wf()
    &&& m2.s@ == (secret_randomness.r@ + sk.sk@ * m1.c@) % scalar_modulus()
}

impl BSSigner {
    /// The signer holds a secret key and the generator.
    pub open spec fn wf(self) -> bool {
        self.sk.wf() && self.g.wf() && self.g.dlog() == 1
    }

    pub fn new(signer: &Signer) -> (bs_signer: Self)
        requires
            signer.wf(),
        ensures
            bs_signer.wf(),
            bs_signer.sk == signer.sk,
            bs_signer.g == signer.g,
    {
        BSSigner { sk: signer.get_secret_key(), g: signer.get_generator() }
    }

    /// Commits to the given nonce.
    pub fn first_round_with(&self, r: Scalar) -> (out: (
        BSSignerSecretRandomness,
        BSSignerFirstRoundMessage,
    ))
        requires
            self.wf(),
            r.wf(),
        ensures
            out.0.r == r,
            commits_to(out.0, out.1),
    {
        let r_g = self.g.mul(&r);
        proof {
            lemma_small_mod(r@, scalar_modulus());
        }
        (BSSignerSecretRandomness { r }, BSSignerFirstRoundMessage { r_g })
    }

    /// Commits to a nonce drawn from `rng`.
    pub fn first_round(&self, rng: &mut StdRng) -> (out: (
        BSSignerSecretRandomness,
        BSSignerFirstRoundMessage,
    ))
        requires
            self.wf(),
        ensures
            commits_to(out.0, out.1),
    {
        let r = Scalar::random(rng);
        self.first_round_with(r)
    }

    /// Answers the verifier's challenge.
    pub fn second_round(
        &self,
        secret_randomness: &BSSignerSecretRandomness,
        m1: &BSVerifierFirstRoundMessage,
    ) -> (m2: BSSignerSecondRoundMessage)
        requires
            self.wf(),
            secret_randomness.r.wf(),
            m1.c.wf(),
        ensures
            responds_to(self.sk, *secret_randomness, *m1, m2),
    {
        let s = secret_randomness.r.add(&self.sk.sk.mul(&m1.c));
        proof {
            lemma_add_mod_noop_right(
                secret_randomness.r@ as int,
                (self.sk.sk@ * m1.c@) as int,
                scalar_modulus() as int,
            );
        }
        BSSignerSecondRoundMessage { s }
    }
}

} // verus!
