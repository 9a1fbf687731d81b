//! The signer's two rounds.

use crate::fde::verifying::FDEVerifierFirstRoundMessage;
use crate::field::{random_scalars, scalar_modulus, scalars_wf, Scalar};
use crate::fse::protocol::{commit_nonces, commits_to_nonces};
use crate::group::{points_wf, Point};
use crate::modular::{
    lemma_congruent_add, lemma_congruent_half, lemma_congruent_mod, lemma_congruent_small,
};
use crate::schnorr_signature::key::SecretKey;
use crate::schnorr_signature::signer::Signer;
use ark_std::UniformRand;
use rand::rngs::StdRng;
use vstd::arithmetic::div_mod::lemma_small_mod;
use vstd::prelude::*;

verus! {

#[derive(Clone, Copy, Debug)]
pub struct BFDESigner {
    pub sk: SecretKey,
    pub g: Point,
    /// The number of messages of a session.
    pub n: usize,
}

/// The two vectors of nonces, which the signer keeps.
#[derive(Clone, Debug)]
pub struct BFDESignerSecretRandomness {
    pub r0: Vec<Scalar>,
    pub r1: Vec<Scalar>,
}

/// The commitments to the two vectors of nonces.
#[derive(Clone, Debug)]
pub struct BFDESignerFirstRoundMessage {
    pub r0_g: Vec<Point>,
    pub r1_g: Vec<Point>,
}

/// The opening of the branch `b`: the commitment `K` to the mask, and for
/// each message the released value and the commitment to the response.
#[derive(Clone, Debug)]
pub struct BFDESignerSecondRoundMessage {
    pub com_k: Point,
    pub alpha: Vec<Scalar>,
    pub com: Vec<Point>,
    pub b: bool,
}

/// The first message commits to the two vectors of nonces, each of length
/// `n`.
pub open spec fn commits_to_branches(
    n: usize,
    secret_randomness: BFDESignerSecretRandomness,
    m1: BFDESignerFirstRoundMessage,
) -> bool {
    &&& secret_randomness.r0.len() == n
    &&& secret_randomness.r1.len() == n
    &&& scalars_wf(secret_randomness.r0@)
    &&& scalars_wf(secret_randomness.r1@)
    &&& commits_to_nonces(secret_randomness.r0@, m1.r0_g@)
    &&& commits_to_nonces(secret_randomness.r1@, m1.r1_g@)
}

/// The opening of one message: `com = s * g` for the response `s = r + c * sk`,
/// and `2 * alpha = s + k`.
pub open spec fn opens_one(
    sk: SecretKey,
    r: Scalar,
    c: Scalar,
    k: nat,
    alpha: Scalar,
    com: Point,
) -> bool {
    &&& alpha.wf()
    &&& com.wf()
    &&& com.dlog() == (r@ + c@ * sk.sk@) % scalar_modulus()
    &&& (2 * alpha@) % scalar_modulus() == (com.dlog() + k) % scalar_modulus()
}

/// The second message opens the branch `b` with the mask `k`, message by
/// message.
pub open spec fn opens_branch(
    sk: SecretKey,
    secret_randomness: BFDESignerSecretRandomness,
    m1: FDEVerifierFirstRoundMessage,
    b: bool,
    k: nat,
    m2: BFDESignerSecondRoundMessage,
) -> bool {
    let r = if b {
        secret_randomness.r1@
    } else {
        secret_randomness.r0@
    };
    let c = if b {
        m1.c1@
    } else {
        m1.c0@
    };
    &&& m2.b == b
    &&& m2.alpha.len() == r.len()
    &&& m2.com.len() == r.len()
    &&& scalars_wf(m2.alpha@)
    &&& points_wf(m2.com@)
    &&& m2.com_k.wf()
    &&& m2.com_k.dlog() == k
    &&& forall|i: int|
        0 <= i < r.len() ==> opens_one(sk, r[i], c[i], k, #[trigger] m2.alpha@[i], m2.com@[i])
}

impl BFDESigner {
    /// The signer holds a secret key and the generator.
    pub open spec fn wf(self) -> bool {
        self.sk.wf() && self.g.wf() && self.g.dlog() == 1
    }

    pub fn new(signer: &Signer, n: usize) -> (bfde_signer: BFDESigner)
        requires
            signer.wf(),
        ensures
            bfde_signer.wf(),
            bfde_signer.sk == signer.sk,
            bfde_signer.g == signer.g,
            bfde_signer.n == n,
    {
        BFDESigner { sk: signer.get_secret_key(), g: signer.get_generator(), n }
    }

    /// Commits to the two given vectors of nonces.
    pub fn first_round_with(&self, r0: Vec<Scalar>, r1: Vec<Scalar>) -> (out: (
        BFDESignerSecretRandomness,
        BFDESignerFirstRoundMessage,
    ))
        requires
            self.wf(),
            r0.len() == self.n,
            r1.len() == self.n,
            scalars_wf(r0@),
            scalars_wf(r1@),
        ensures
            out.0.r0 == r0,
            out.0.r1 == r1,
            commits_to_branches(self.n, out.0, out.1),
    {
        let r0_g = commit_nonces(&self.g, &r0);
        let r1_g = commit_nonces(&self.g, &r1);
        (BFDESignerSecretRandomness { r0, r1 }, BFDESignerFirstRoundMessage { r0_g, r1_g })
    }

    /// Commits to two vectors of nonces drawn from `rng`, the first vector
    /// before the second.
    pub fn first_round(&self, rng: &mut StdRng) -> (out: (
        BFDESignerSecretRandomness,
        BFDESignerFirstRoundMessage,
    ))
        requires
            self.wf(),
        ensures
            commits_to_branches(self.n, out.0, out.1),
    {
        let r0 = random_scalars(self.n, rng);
        let r1 = random_scalars(self.n, rng);
        self.first_round_with(r0, r1)
    }

    /// The opening of one message, where `half` is the inverse of two.
    pub fn open_one(&self, r: &Scalar, c: &Scalar, k: &Scalar, half: &Scalar) -> (out: (
        Scalar,
        Point,
    ))
        requires
            self.wf(),
            r.wf(),
            c.wf(),
            k.wf(),
            half.wf(),
            (2 * half@) % scalar_modulus() == 1,
        ensures
            opens_one(self.sk, *r, *c, k@, out.0, out.1),
    {
        let s = r.add(&c.mul(&self.sk.sk));
        let g_s = self.g.mul(&s);
        let masked = s.add(k);
        let alpha = masked.mul(half);
        proof {
            let q = scalar_modulus() as int;
            let x = (c@ * self.sk.sk@) as int;
            lemma_congruent_mod(x, q);
            lemma_congruent_add(r@ as int, r@ as int, x % q, x, q);
            lemma_congruent_mod((1 * s@) as int, q);
            lemma_congruent_small(g_s.dlog() as int, s@ as int, q);
            lemma_congruent_mod((masked@ * half@) as int, q);
            lemma_small_mod(1, scalar_modulus());
            lemma_congruent_half(masked@ as int, half@ as int, alpha@ as int, q);
        }
        (alpha, g_s)
    }

    /// Opens the given branch with the given mask.
    pub fn second_round_with(
        &self,
        secret_randomness: &BFDESignerSecretRandomness,
        m1: &FDEVerifierFirstRoundMessage,
        b: bool,
        k: Scalar,
    ) -> (m2: BFDESignerSecondRoundMessage)
        requires
            self.wf(),
            secret_randomness.r0.len() == self.n,
            secret_randomness.r1.len() == self.n,
            m1.c0.len() == self.n,
            m1.c1.len() == self.n,
            scalars_wf(secret_randomness.r0@),
            scalars_wf(secret_randomness.r1@),
            scalars_wf(m1.c0@),
            scalars_wf(m1.c1@),
            k.wf(),
        ensures
            opens_branch(self.sk, *secret_randomness, *m1, b, k@, m2),
    {
        let com_k = self.g.mul(&k);
        proof {
            lemma_congruent_mod((1 * k@) as int, scalar_modulus() as int);
            lemma_congruent_small(com_k.dlog() as int, k@ as int, scalar_modulus() as int);
        }
        let (r, c) = if b {
            (&secret_randomness.r1, &m1.c1)
        } else {
            (&secret_randomness.r0, &m1.c0)
        };
        let n = r.len();
        let half = Scalar::half();
        let mut alpha: Vec<Scalar> = Vec::new();
        let mut com: Vec<Point> = Vec::new();
        for i in 0..n
            invariant
                self.wf(),
                k.wf(),
                half.wf(),
                (2 * half@) % scalar_modulus() == 1,
                n == r.len(),
                n == c.len(),
                scalars_wf(r@),
                scalars_wf(c@),
                alpha.len() == i,
                com.len() == i,
                scalars_wf(alpha@),
                points_wf(com@),
                forall|j: int|
                    0 <= j < i ==> opens_one(
                        self.sk,
                        r@[j],
                        c@[j],
                        k@,
                        #[trigger] alpha@[j],
                        com@[j],
                    ),
        {
            assert(r@[i as int].wf());
            assert(c@[i as int].wf());
            let (alpha_i, com_i) = self.open_one(&r[i], &c[i], &k, &half);
            alpha.push(alpha_i);
            com.push(com_i);
        }
        BFDESignerSecondRoundMessage { com_k, alpha, com, b }
    }

    /// Opens a branch chosen by a bit drawn from `rng`, with a mask drawn
    /// after it: the bit is drawn only now, when both vectors of challenges
    /// are known.
    pub fn second_round(
        &self,
        secret_randomness: &BFDESignerSecretRandomness,
        m1: &FDEVerifierFirstRoundMessage,
        rng: &mut StdRng,
    ) -> (m2: BFDESignerSecondRoundMessage)
        requires
            self.wf(),
            secret_randomness.r0.len() == self.n,
            secret_randomness.r1.len() == self.n,
            m1.c0.len() == self.n,
            m1.c1.len() == self.n,
            scalars_wf(secret_randomness.r0@),
            scalars_wf(secret_randomness.r1@),
            scalars_wf(m1.c0@),
            scalars_wf(m1.c1@),
        ensures
            m2.com_k.wf(),
            opens_branch(self.sk, *secret_randomness, *m1, m2.b, m2.com_k.dlog(), m2),
    {
        let b = random_bit(rng);
        let k = Scalar::random(rng);
        self.second_round_with(secret_randomness, m1, b, k)
    }
}

/// `bool::rand`: a bit, whatever the generator yields.
#[verifier::external_body]
fn random_bit(rng: &mut StdRng) -> (b: bool) {
    bool::rand(rng)
}

} // verus!
