//! The verifier's two rounds.

use crate::blind_fse::signer::{
    commits_to_branches, opens_branch, opens_one, BFDESignerFirstRoundMessage,
    BFDESignerSecondRoundMessage, BFDESignerSecretRandomness,
};
use crate::blind_schnorr_signature::verifying::{blind_commitment, blinded_challenge};
use crate::field::{scalar_modulus, scalars_wf, Scalar};
use crate::fse::protocol::byte_strings;
use crate::group::{points_wf, Point};
use crate::modular::{lemma_congruent_add, lemma_congruent_mod, lemma_congruent_small};
use crate::schnorr_signature::key::{key_pair, PublicKey, SecretKey};
use crate::schnorr_signature::util::challenge_scalar;
use crate::schnorr_signature::verifying::Verifier;
use rand::rngs::StdRng;
use vstd::prelude::*;

verus! {

#[derive(Clone, Copy, Debug)]
pub struct FDEVerifier {
    pub pk: PublicKey,
    pub g: Point,
    /// The number of messages of a session.
    pub n: usize,
}

/// The blinding scalars of the two branches, which the verifier keeps.
#[derive(Clone, Copy, Debug)]
pub struct FDEVerifierSecretRandomness {
    pub alpha_0: Scalar,
    pub beta_0: Scalar,
    pub alpha_1: Scalar,
    pub beta_1: Scalar,
}

/// The blinded challenges of the two branches.
#[derive(Clone, Debug)]
pub struct FDEVerifierFirstRoundMessage {
    pub c0: Vec<Scalar>,
    pub c1: Vec<Scalar>,
}

/// The challenges of one branch are the blinded challenges on its
/// commitments: `c_i = H(R_i + alpha * g + beta * pk, m_i) + beta`.
pub open spec fn challenges_branch(
    pk: PublicKey,
    r_g: Seq<Point>,
    message: Seq<Seq<u8>>,
    alpha: nat,
    beta: nat,
    c: Seq<Scalar>,
) -> bool {
    &&& c.len() == message.len()
    &&& forall|i: int|
        0 <= i < message.len() ==> (#[trigger] c[i]).wf() && c[i]@ == blinded_challenge(
            pk,
            r_g[i],
            message[i],
            alpha,
            beta,
        )
}

/// The two equations of one message of the opened branch:
/// `com = R + c * pk` and `(2 * alpha) * g = K + com`, read in the exponent.
pub open spec fn valid_opening(
    pk: PublicKey,
    r_g: Point,
    c: Scalar,
    com_k: Point,
    alpha: Scalar,
    com: Point,
) -> bool {
    &&& com.dlog() == (r_g.dlog() + c@ * pk.pk.dlog()) % scalar_modulus()
    &&& (2 * alpha@) % scalar_modulus() == (com_k.dlog() + com.dlog()) % scalar_modulus()
}

/// The session is accepted: both equations hold of each of the `n` messages,
/// on the branch that the signer opened.
pub open spec fn accepts(
    pk: PublicKey,
    n: usize,
    m1: BFDESignerFirstRoundMessage,
    m2: FDEVerifierFirstRoundMessage,
    m3: BFDESignerSecondRoundMessage,
) -> bool {
    let r_g = if m3.b {
        m1.r1_g@
    } else {
        m1.r0_g@
    };
    let c = if m3.b {
        m2.c1@
    } else {
        m2.c0@
    };
    forall|i: int|
        0 <= i < n ==> valid_opening(
            pk,
            r_g[i],
            c[i],
            m3.com_k,
            #[trigger] m3.alpha@[i],
            m3.com@[i],
        )
}

impl FDEVerifier {
    /// The verifier holds a public key and the generator.
    pub open spec fn wf(self) -> bool {
        self.pk.wf() && self.g.wf() && self.g.dlog() == 1
    }

    pub fn new(verifier: &Verifier, n: usize) -> (fde_verifier: FDEVerifier)
        requires
            verifier.wf(),
        ensures
            fde_verifier.wf(),
            fde_verifier.pk == verifier.pk,
            fde_verifier.g == verifier.g,
            fde_verifier.n == n,
    {
        FDEVerifier { pk: verifier.pk, g: verifier.get_generator(), n }
    }

    /// The blinded challenge on one commitment and its message.
    pub fn challenge_one(
        &self,
        r_g: &Point,
        message: &Vec<u8>,
        alpha: &Scalar,
        beta: &Scalar,
    ) -> (c: Scalar)
        requires
            self.wf(),
            r_g.wf(),
            alpha.wf(),
            beta.wf(),
        ensures
            c.wf(),
            c@ == blinded_challenge(self.pk, *r_g, message@, alpha@, beta@),
    {
        let r_g_prime = blind_commitment(&self.g, &self.pk, r_g, alpha, beta);
        let c_prime = challenge_scalar(&r_g_prime, message.as_slice());
        c_prime.add(beta)
    }

    /// The blinded challenges on the commitments of one branch.
    pub fn challenge_branch(
        &self,
        r_g: &Vec<Point>,
        message: &Vec<Vec<u8>>,
        alpha: &Scalar,
        beta: &Scalar,
    ) -> (c: Vec<Scalar>)
        requires
            self.wf(),
            r_g.len() == message.len(),
            points_wf(r_g@),
            alpha.wf(),
            beta.wf(),
        ensures
            challenges_branch(self.pk, r_g@, byte_strings(message@), alpha@, beta@, c@),
    {
        let n = message.len();
        let mut vec_c: Vec<Scalar> = Vec::new();
        for i in 0..n
            invariant
                self.wf(),
                n == message.len(),
                n == r_g.len(),
                points_wf(r_g@),
                alpha.wf(),
                beta.wf(),
                vec_c.len() == i,
                forall|j: int|
                    0 <= j < i ==> (#[trigger] vec_c@[j]).wf() && vec_c@[j]@ == blinded_challenge(
                        self.pk,
                        r_g@[j],
                        byte_strings(message@)[j],
                        alpha@,
                        beta@,
                    ),
        {
            assert(r_g@[i as int].wf());
            let c = self.challenge_one(&r_g[i], &message[i], alpha, beta);
            assert(byte_strings(message@)[i as int] == message@[i as int]@);
            vec_c.push(c);
        }
        vec_c
    }

    /// Challenges the signer on both branches, each blinded with its own
    /// pair of the given scalars.
    pub fn first_round_with(
        &self,
        m1: &BFDESignerFirstRoundMessage,
        message: &Vec<Vec<u8>>,
        alpha_0: Scalar,
        beta_0: Scalar,
        alpha_1: Scalar,
        beta_1: Scalar,
    ) -> (out: (FDEVerifierSecretRandomness, FDEVerifierFirstRoundMessage))
        requires
            self.wf(),
            message.len() == self.n,
            m1.r0_g.len() == self.n,
            m1.r1_g.len() == self.n,
            points_wf(m1.r0_g@),
            points_wf(m1.r1_g@),
            alpha_0.wf(),
            beta_0.wf(),
            alpha_1.wf(),
            beta_1.wf(),
        ensures
            out.0.alpha_0 == alpha_0,
            out.0.beta_0 == beta_0,
            out.0.alpha_1 == alpha_1,
            out.0.beta_1 == beta_1,
            challenges_branch(
                self.pk,
                m1.r0_g@,
                byte_strings(message@),
                alpha_0@,
                beta_0@,
                out.1.c0@,
            ),
            challenges_branch(
                self.pk,
                m1.r1_g@,
                byte_strings(message@),
                alpha_1@,
                beta_1@,
                out.1.c1@,
            ),
    {
        let vec_c0 = self.challenge_branch(&m1.r0_g, message, &alpha_0, &beta_0);
        let vec_c1 = self.challenge_branch(&m1.r1_g, message, &alpha_1, &beta_1);
        (
            FDEVerifierSecretRandomness { alpha_0, beta_0, alpha_1, beta_1 },
            FDEVerifierFirstRoundMessage { c0: vec_c0, c1: vec_c1 },
        )
    }

    /// Challenges the signer on both branches, with blinding scalars drawn
    /// from `rng`.
    pub fn first_round(
        &self,
        m1: &BFDESignerFirstRoundMessage,
        message: &Vec<Vec<u8>>,
        rng: &mut StdRng,
    ) -> (out: (FDEVerifierSecretRandomness, FDEVerifierFirstRoundMessage))
        requires
            self.wf(),
            message.len() == self.n,
            m1.r0_g.len() == self.n,
            m1.r1_g.len() == self.n,
            points_wf(m1.r0_g@),
            points_wf(m1.r1_g@),
        ensures
            out.0.alpha_0.wf(),
            out.0.beta_0.wf(),
            out.0.alpha_1.wf(),
            out.0.beta_1.wf(),
            challenges_branch(
                self.pk,
                m1.r0_g@,
                byte_strings(message@),
                out.0.alpha_0@,
                out.0.beta_0@,
                out.1.c0@,
            ),
            challenges_branch(
                self.pk,
                m1.r1_g@,
                byte_strings(message@),
                out.0.alpha_1@,
                out.0.beta_1@,
                out.1.c1@,
            ),
    {
        let alpha_0 = Scalar::random(rng);
        let beta_0 = Scalar::random(rng);
        let alpha_1 = Scalar::random(rng);
        let beta_1 = Scalar::random(rng);
        self.first_round_with(m1, message, alpha_0, beta_0, alpha_1, beta_1)
    }

    /// Checks the two equations of one message.
    pub fn check_opening(
        &self,
        r_g: &Point,
        c: &Scalar,
        com_k: &Point,
        alpha: &Scalar,
        com: &Point,
    ) -> (b: bool)
        requires
            self.wf(),
            r_g.wf(),
            c.wf(),
            com_k.wf(),
            alpha.wf(),
            com.wf(),
        ensures
            b == valid_opening(self.pk, *r_g, *c, *com_k, *alpha, *com),
    {
        let temp = r_g.add(&self.pk.pk.mul(c));
        let first_check = com.equals(&temp);
        let g_alpha = self.g.mul(alpha);
        let lhs = g_alpha.double();
        let rhs = com_k.add(com);
        let second_check = lhs.equals(&rhs);
        proof {
            let q = scalar_modulus() as int;
            let x = (self.pk.pk.dlog() * c@) as int;
            lemma_congruent_mod(x, q);
            lemma_congruent_add(r_g.dlog() as int, r_g.dlog() as int, x % q, x, q);
            assert(self.pk.pk.dlog() * c@ == c@ * self.pk.pk.dlog()) by (nonlinear_arith);
            let a = alpha@ as int;
            lemma_congruent_mod(1 * a, q);
            lemma_congruent_small(g_alpha.dlog() as int, a, q);
        }
        first_check && second_check
    }

    /// Accepts the session just when both equations hold of every message,
    /// on the branch that the signer opened.
    pub fn second_round(
        &self,
        m1: &BFDESignerFirstRoundMessage,
        m2: &FDEVerifierFirstRoundMessage,
        m3: &BFDESignerSecondRoundMessage,
    ) -> (res: bool)
        requires
            self.wf(),
            m1.r0_g.len() == self.n,
            m1.r1_g.len() == self.n,
            m2.c0.len() == self.n,
            m2.c1.len() == self.n,
            m3.alpha.len() == self.n,
            m3.com.len() == self.n,
            points_wf(m1.r0_g@),
            points_wf(m1.r1_g@),
            scalars_wf(m2.c0@),
            scalars_wf(m2.c1@),
            scalars_wf(m3.alpha@),
            points_wf(m3.com@),
            m3.com_k.wf(),
        ensures
            res == accepts(self.pk, self.n, *m1, *m2, *m3),
    {
        let (r_g, c) = if m3.b {
            (&m1.r1_g, &m2.c1)
        } else {
            (&m1.r0_g, &m2.c0)
        };
        let mut res = true;
        for i in 0..self.n
            invariant
                self.wf(),
                r_g.len() == self.n,
                c.len() == self.n,
                m3.alpha.len() == self.n,
                m3.com.len() == self.n,
                points_wf(r_g@),
                scalars_wf(c@),
                scalars_wf(m3.alpha@),
                points_wf(m3.com@),
                m3.com_k.wf(),
                res == (forall|j: int|
                    0 <= j < i ==> valid_opening(
                        self.pk,
                        r_g@[j],
                        c@[j],
                        m3.com_k,
                        #[trigger] m3.alpha@[j],
                        m3.com@[j],
                    )),
        {
            assert(r_g@[i as int].wf());
            assert(c@[i as int].wf());
            assert(m3.alpha@[i as int].wf());
            assert(m3.com@[i as int].wf());
            let holds = self.check_opening(&r_g[i], &c[i], &m3.com_k, &m3.alpha[i], &m3.com[i]);
            res = res && holds;
        }
        res
    }
}

/// The opening that the holder of the secret key gives of one message
/// satisfies both equations under the public key.
pub proof fn lemma_opening_verifies(
    sk: SecretKey,
    pk: PublicKey,
    r: Scalar,
    r_g: Point,
    c: Scalar,
    k: nat,
    com_k: Point,
    alpha: Scalar,
    com: Point,
)
    requires
        key_pair(sk, pk),
        r_g.dlog() == r@,
        com_k.dlog() == k,
        opens_one(sk, r, c, k, alpha, com),
    ensures
        valid_opening(pk, r_g, c, com_k, alpha, com),
{
    assert(com.dlog() + k == k + com.dlog());
}

/// Where the signer follows the protocol, the session is accepted, whatever
/// the challenges and whichever branch is opened.
pub proof fn lemma_session_accepted(
    sk: SecretKey,
    pk: PublicKey,
    n: usize,
    secret_randomness: BFDESignerSecretRandomness,
    m1: BFDESignerFirstRoundMessage,
    m2: FDEVerifierFirstRoundMessage,
    b: bool,
    k: nat,
    m3: BFDESignerSecondRoundMessage,
)
    requires
        key_pair(sk, pk),
        commits_to_branches(n, secret_randomness, m1),
        opens_branch(sk, secret_randomness, m2, b, k, m3),
    ensures
        accepts(pk, n, m1, m2, m3),
{
    let r = if b {
        secret_randomness.r1@
    } else {
        secret_randomness.r0@
    };
    let r_g = if m3.b {
        m1.r1_g@
    } else {
        m1.r0_g@
    };
    let c = if m3.b {
        m2.c1@
    } else {
        m2.c0@
    };
    assert forall|i: int| 0 <= i < n implies valid_opening(
        pk,
        r_g[i],
        c[i],
        m3.com_k,
        #[trigger] m3.alpha@[i],
        m3.com@[i],
    ) by {
        assert(opens_one(sk, r[i], c[i], k, m3.alpha@[i], m3.com@[i]));
        assert(r_g[i].wf() && r_g[i].dlog() == r[i]@);
        lemma_opening_verifies(sk, pk, r[i], r_g[i], c[i], k, m3.com_k, m3.alpha@[i], m3.com@[i]);
    }
}

} // verus!
