//! The verifier's two rounds.

use crate::blind_schnorr_signature::signer::{
    commits_to, responds_to, BSSignerFirstRoundMessage, BSSignerSecondRoundMessage,
    BSSignerSecretRandomness,
};
use crate::field::{scalar_modulus, Scalar};
use crate::group::{generator_multiple, Point};
use crate::modular::{
    lemma_congruent_add, lemma_congruent_mod, lemma_congruent_mul, lemma_congruent_small,
};
use crate::schnorr_signature::key::{key_pair, PublicKey, SecretKey};
use crate::schnorr_signature::signature::{valid_signature, Signature};
use crate::schnorr_signature::util::{challenge, challenge_scalar};
use crate::schnorr_signature::verifying::Verifier;
use rand::rngs::StdRng;
use vstd::prelude::*;

verus! {

pub struct BSVerifier {
    pub pk: PublicKey,
    pub g: Point,
}

/// The blinding scalars `alpha` and `beta`, which the verifier keeps.
pub struct BSVerifierSecretRandomness {
    pub alpha: Scalar,
    pub beta: Scalar,
}

/// The blinded challenge `c = c' + beta`.
pub struct BSVerifierFirstRoundMessage {
    pub c: Scalar,
}

/// The verdict on a response that fails the signer's equation.
#[derive(Clone, Copy, Debug, PartialEq, Eq)]
pub struct InvalidTranscript;

/// The exponent of the blinded commitment `R' = R + alpha * g + beta * pk`.
pub open spec fn blinded_exponent(pk: PublicKey, r_g: Point, alpha: nat, beta: nat) -> nat {
    (alpha + beta * pk.pk.dlog() + r_g.dlog()) % scalar_modulus()
}

/// The blinded commitment `R' = R + alpha * g + beta * pk`.
pub open spec fn blinded_commitment(pk: PublicKey, r_g: Point, alpha: nat, beta: nat) -> Point {
    generator_multiple(blinded_exponent(pk, r_g, alpha, beta))
}

/// The blinded challenge `c = H(R', m) + beta` on a commitment and a message.
pub open spec fn blinded_challenge(
    pk: PublicKey,
    r_g: Point,
    message: Seq<u8>,
    alpha: nat,
    beta: nat,
) -> nat {
    (challenge(blinded_commitment(pk, r_g, alpha, beta), message) + beta) % scalar_modulus()
}

/// The response satisfies the signer's equation `s * g = R + c * pk`.
pub open spec fn valid_response(pk: PublicKey, r_g: Point, c: nat, s: nat) -> bool {
    s == (r_g.dlog() + c * pk.pk.dlog()) % scalar_modulus()
}

/// The signature is what the verifier makes of the signer's messages: the
/// blinded commitment, and the response shifted by `alpha`.
pub open spec fn unblinded(
    pk: PublicKey,
    secret_randomness: BSVerifierSecretRandomness,
    m1: BSSignerFirstRoundMessage,
    m3: BSSignerSecondRoundMessage,
    signature: Signature,
) -> bool {
    &&& signature.wf()
    &&& signature.r_g.dlog() == blinded_exponent(
        pk,
        m1.r_g,
        secret_randomness.alpha@,
        secret_randomness.beta@,
    )
    &&& signature.s@ == (m3.s@ + secret_randomness.alpha@) % scalar_modulus()
}

/// Computes the blinded commitment `R' = R + alpha * g + beta * pk`.
pub fn blind_commitment(
    g: &Point,
    pk: &PublicKey,
    r_g: &Point,
    alpha: &Scalar,
    beta: &Scalar,
) -> (r_g_prime: Point)
    requires
        g.wf(),
        g.dlog() == 1,
        pk.wf(),
        r_g.wf(),
        alpha.wf(),
        beta.wf(),
    ensures
        r_g_prime.wf(),
        r_g_prime.dlog() == blinded_exponent(*pk, *r_g, alpha@, beta@),
        r_g_prime == blinded_commitment(*pk, *r_g, alpha@, beta@),
{
    let mut temp = g.mul(alpha);
    let ghost d1 = temp.dlog();
    temp = temp.add(&pk.pk.mul(beta));
    let ghost d2 = temp.dlog();
    temp = temp.add(r_g);
    proof {
        let q = scalar_modulus() as int;
        let x = pk.pk.dlog() as int;
        lemma_congruent_mod((1 * alpha@) as int, q);
        lemma_congruent_mod(x * beta@, q);
        lemma_congruent_add(d1 as int, alpha@ as int, (x * beta@) % q, x * beta@, q);
        lemma_congruent_mod(d1 + (x * beta@) % q, q);
        lemma_congruent_add(d2 as int, alpha@ + x * beta@, r_g.dlog() as int, r_g.dlog() as int, q);
        assert(x * beta@ == beta@ * x) by (nonlinear_arith);
    }
    temp
}

impl BSVerifier {
    /// The verifier holds a public key and the generator.
    pub open spec fn wf(self) -> bool {
        self.pk.wf() && self.g.wf() && self.g.dlog() == 1
    }

    pub fn new(verifier: &Verifier) -> (bs_verifier: Self)
        requires
            verifier.wf(),
        ensures
            bs_verifier.wf(),
            bs_verifier.pk == verifier.pk,
            bs_verifier.g == verifier.g,
    {
        BSVerifier { pk: verifier.pk, g: verifier.get_generator() }
    }

    /// Blinds the signer's commitment with the given scalars and challenges
    /// the signer.
    pub fn first_round_with(
        &self,
        m1: &BSSignerFirstRoundMessage,
        message: Vec<u8>,
        alpha: Scalar,
        beta: Scalar,
    ) -> (out: (BSVerifierSecretRandomness, BSVerifierFirstRoundMessage))
        requires
            self.wf(),
            m1.r_g.wf(),
            alpha.wf(),
            beta.wf(),
        ensures
            out.0.alpha == alpha,
            out.0.beta == beta,
            out.1.c.wf(),
            out.1.c@ == blinded_challenge(self.pk, m1.r_g, message@, alpha@, beta@),
    {
        let r_g_prime = blind_commitment(&self.g, &self.pk, &m1.r_g, &alpha, &beta);
        let c_prime = challenge_scalar(&r_g_prime, message.as_slice());
        let c = c_prime.add(&beta);
        (BSVerifierSecretRandomness { alpha, beta }, BSVerifierFirstRoundMessage { c })
    }

    /// Blinds the signer's commitment with scalars drawn from `rng` and
    /// challenges the signer.
    pub fn first_round(
        &self,
        m1: &BSSignerFirstRoundMessage,
        message: Vec<u8>,
        rng: &mut StdRng,
    ) -> (out: (BSVerifierSecretRandomness, BSVerifierFirstRoundMessage))
        requires
            self.wf(),
            m1.r_g.wf(),
        ensures
            out.0.alpha.wf(),
            out.0.beta.wf(),
            out.1.c.wf(),
            out.1.c@ == blinded_challenge(
                self.pk,
                m1.r_g,
                message@,
                out.0.alpha@,
                out.0.beta@,
            ),
    {
        let alpha = Scalar::random(rng);
        let beta = Scalar::random(rng);
        self.first_round_with(m1, message, alpha, beta)
    }

    /// Checks the signer's response against `s * g = R + c * pk` and, where
    /// it holds, takes the blinding off: the signature is `(R', s + alpha)`.
    pub fn second_round(
        &self,
        secret_randomness: &BSVerifierSecretRandomness,
        m1: &BSSignerFirstRoundMessage,
        m2: &BSVerifierFirstRoundMessage,
        m3: &BSSignerSecondRoundMessage,
    ) -> (res: Result<Signature, InvalidTranscript>)
        requires
            self.wf(),
            secret_randomness.alpha.wf(),
            secret_randomness.beta.wf(),
            m1.r_g.wf(),
            m2.c.wf(),
            m3.s.wf(),
        ensures
            res.is_ok() == valid_response(self.pk, m1.r_g, m2.c@, m3.s@),
            res matches Ok(signature) ==> unblinded(
                self.pk,
                *secret_randomness,
                *m1,
                *m3,
                signature,
            ),
    {
        let lhs = self.g.mul(&m3.s);
        let rhs = m1.r_g.add(&self.pk.pk.mul(&m2.c));
        proof {
            let q = scalar_modulus() as int;
            let x = self.pk.pk.dlog() as int;
            lemma_congruent_mod((1 * m3.s@) as int, q);
            lemma_congruent_small(lhs.dlog() as int, m3.s@ as int, q);
            lemma_congruent_mod(x * m2.c@, q);
            lemma_congruent_add(
                m1.r_g.dlog() as int,
                m1.r_g.dlog() as int,
                (x * m2.c@) % q,
                x * m2.c@,
                q,
            );
            assert(x * m2.c@ == m2.c@ * x) by (nonlinear_arith);
        }
        if !lhs.equals(&rhs) {
            return Err(InvalidTranscript);
        }
        let s_prime = m3.s.add(&secret_randomness.alpha);
        let r_g_prime = blind_commitment(
            &self.g,
            &self.pk,
            &m1.r_g,
            &secret_randomness.alpha,
            &secret_randomness.beta,
        );
        Ok(Signature { r_g: r_g_prime, s: s_prime })
    }
}

/// Where both sides follow the protocol, the signer's response passes the
/// verifier's check, and the signature that the verifier is left with is
/// valid for the message under the signer's public key.
pub proof fn lemma_blind_signature_verifies(
    sk: SecretKey,
    pk: PublicKey,
    message: Seq<u8>,
    signer_randomness: BSSignerSecretRandomness,
    m1: BSSignerFirstRoundMessage,
    verifier_randomness: BSVerifierSecretRandomness,
    m2: BSVerifierFirstRoundMessage,
    m3: BSSignerSecondRoundMessage,
    signature: Signature,
)
    requires
        key_pair(sk, pk),
        commits_to(signer_randomness, m1),
        verifier_randomness.alpha.wf(),
        verifier_randomness.beta.wf(),
        m2.c@ == blinded_challenge(
            pk,
            m1.r_g,
            message,
            verifier_randomness.alpha@,
            verifier_randomness.beta@,
        ),
        responds_to(sk, signer_randomness, m2, m3),
        unblinded(pk, verifier_randomness, m1, m3, signature),
    ensures
        valid_response(pk, m1.r_g, m2.c@, m3.s@),
        valid_signature(pk, message, signature),
{
    let q = scalar_modulus() as int;
    let x = sk.sk@ as int;
    let r = signer_randomness.r@ as int;
    let alpha = verifier_randomness.alpha@ as int;
    let beta = verifier_randomness.beta@ as int;
    let c = m2.c@ as int;
    let s = m3.s@ as int;
    let e = blinded_exponent(pk, m1.r_g, alpha as nat, beta as nat) as int;
    let c_prime = challenge(signature.r_g, message) as int;
    assert(x * c == c * x) by (nonlinear_arith);
    assert(signature.r_g == blinded_commitment(pk, m1.r_g, alpha as nat, beta as nat));
    // s' = s + alpha, with s = r + x c and c = c' + beta
    lemma_congruent_mod(r + x * c, q);
    lemma_congruent_mod(c_prime + beta, q);
    lemma_congruent_mul(x, x, c, c_prime + beta, q);
    lemma_congruent_add(r, r, x * c, x * (c_prime + beta), q);
    lemma_congruent_add(s, r + x * (c_prime + beta), alpha, alpha, q);
    lemma_congruent_mod(s + alpha, q);
    // R' + c' pk, with R' = alpha + beta x + r
    lemma_congruent_mod(alpha + beta * x + r, q);
    lemma_congruent_add(e, alpha + beta * x + r, c_prime * x, c_prime * x, q);
    lemma_congruent_mod(e + c_prime * x, q);
    assert(r + x * (c_prime + beta) + alpha == alpha + beta * x + r + c_prime * x)
        by (nonlinear_arith);
}

} // verus!
