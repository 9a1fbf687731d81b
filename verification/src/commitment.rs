//! Pedersen commitments over the group, with two generators `g` and `h`.

use crate::field::{scalar_modulus, Scalar};
use crate::group::Point;
use crate::modular::{lemma_congruent_add, lemma_congruent_mod};
use rand::rngs::StdRng;
use vstd::prelude::*;

verus! {

/// The two generators of the scheme.
pub struct CommitmentScheme {
    pub g: Point,
    pub h: Point,
}

/// What opens a commitment: the message `m` and the randomness `r`.
pub struct Opening {
    pub m: Scalar,
    pub r: Scalar,
}

/// The commitment `m * g + r * h`.
pub struct Commitment {
    pub com: Point,
}

/// The commitment is the one that the opening gives: `com = m * g + r * h`,
/// read in the exponent.
pub open spec fn opens(scheme: CommitmentScheme, opening: Opening, com: Commitment) -> bool {
    com.com.dlog() == (scheme.g.dlog() * opening.m@ + scheme.h.dlog() * opening.r@)
        % scalar_modulus()
}

impl Opening {
    pub open spec fn wf(self) -> bool {
        self.m.wf() && self.r.wf()
    }

    /// An opening of the message, with randomness drawn from `rng`.
    pub fn new(m: Scalar, rng: &mut StdRng) -> (opening: Self)
        requires
            m.wf(),
        ensures
            opening.wf(),
            opening.m == m,
    {
        let r = Scalar::random(rng);
        Opening { m, r }
    }
}

impl CommitmentScheme {
    /// Both generators belong to the group, and `g` is its generator.
    pub open spec fn wf(self) -> bool {
        self.g.wf() && self.g.dlog() == 1 && self.h.wf()
    }

    /// A scheme with the generator of the group and a second generator drawn
    /// from `rng`.
    pub fn new(rng: &mut StdRng) -> (scheme: CommitmentScheme)
        ensures
            scheme.wf(),
    {
        CommitmentScheme { g: Point::generator(), h: Point::random(rng) }
    }

    /// The commitment that an opening gives.
    pub fn commitment_of(&self, opening: &Opening) -> (com: Commitment)
        requires
            self.wf(),
            opening.wf(),
        ensures
            com.com.wf(),
            opens(*self, *opening, com),
    {
        let g_m = self.g.mul(&opening.m);
        let h_r = self.h.mul(&opening.r);
        let com = g_m.add(&h_r);
        proof {
            let q = scalar_modulus() as int;
            let a = (self.g.dlog() * opening.m@) as int;
            let b = (self.h.dlog() * opening.r@) as int;
            lemma_congruent_mod(a, q);
            lemma_congruent_mod(b, q);
            lemma_congruent_add(a % q, a, b % q, b, q);
        }
        Commitment { com }
    }

    /// Commits to the message, with randomness drawn from `rng`.
    pub fn commit(&self, m: Scalar, rng: &mut StdRng) -> (out: (Opening, Commitment))
        requires
            self.wf(),
            m.wf(),
        ensures
            out.0.wf(),
            out.0.m == m,
            out.1.com.wf(),
            opens(*self, out.0, out.1),
    {
        let opening = Opening::new(m, rng);
        let com = self.commitment_of(&opening);
        (opening, com)
    }

    /// Whether the opening opens the commitment.
    pub fn verify(&self, opening: &Opening, com: Commitment) -> (b: bool)
        requires
            self.wf(),
            opening.wf(),
            com.com.wf(),
        ensures
            b == opens(*self, *opening, com),
    {
        let expected_commitment = self.commitment_of(opening);
        expected_commitment.com.equals(&com.com)
    }
}

} // verus!
