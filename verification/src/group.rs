//! The group: the points of the curve `y^2 = x^3 + 3` over the base field,
//! which form a cyclic group of prime order `q`.

use crate::field::{limbs_are_zero, limbs_less_than, limbs_value, scalar_modulus, Scalar};
use ark_bn254::{Fq, Fr, G1Affine, G1Projective};
use ark_ec::{CurveGroup, Group};
use ark_ff::{BigInt, PrimeField};
use ark_std::UniformRand;
use rand::rngs::StdRng;
use vstd::prelude::*;

verus! {

/// The prime `p`, the modulus of the base field over which the curve is
/// defined.
pub open spec fn base_modulus() -> nat {
    21888242871839275222246405745257275088696311157297823662689037894645226208583nat
}

/// The words of the modulus of the base field.
pub fn base_modulus_limbs() -> (l: [u64; 4])
    ensures
        limbs_value(l) == base_modulus(),
{
    [0x3c208c16d87cfd47, 0x97816a916871ca8d, 0xb85045b68181585d, 0x30644e72e131a029]
}

/// A point of the group in affine coordinates, each coordinate held as its
/// canonical representative; the neutral element has both coordinates zero
/// and the flag set.
#[derive(Clone, Copy, Debug, PartialEq, Eq)]
pub struct Point {
    pub x: [u64; 4],
    pub y: [u64; 4],
    pub infinity: bool,
}

/// The affine coordinates of `k` times the generator, as the curve
/// arithmetic computes them. The group has prime order `q`, so each of its
/// points is such a multiple for exactly one `k` below `q`.
pub uninterp spec fn generator_multiple(k: nat) -> Point;

impl Point {
    /// The exponent of the point with respect to the generator: the `d`
    /// below the group order for which the point is `d` times the generator.
    pub open spec fn dlog(self) -> nat {
        choose|d: nat| d < scalar_modulus() && generator_multiple(d) == self
    }

    /// The coordinates are canonical, and the flag is set just when both are
    /// held as zero, which is how the neutral element is held and no point
    /// of the curve.
    pub open spec fn canonical(self) -> bool {
        &&& limbs_value(self.x) < base_modulus()
        &&& limbs_value(self.y) < base_modulus()
        &&& self.infinity == (limbs_value(self.x) == 0 && limbs_value(self.y) == 0)
    }

    /// The coordinates satisfy the curve equation `y^2 = x^3 + 3` in the
    /// base field, or the flag of the neutral element is set.
    pub open spec fn on_curve(self) -> bool {
        let x = limbs_value(self.x);
        let y = limbs_value(self.y);
        self.infinity || (y * y) % base_modulus() == (x * x * x + 3) % base_modulus()
    }

    /// The point belongs to the group: it is held in canonical form, and it
    /// is the multiple of the generator that its exponent names.
    pub open spec fn wf(self) -> bool {
        &&& self.canonical()
        &&& self.dlog() < scalar_modulus()
        &&& generator_multiple(self.dlog()) == self
    }

    /// Whether the coordinates are those of a point of the group: whether
    /// they are canonical and satisfy the curve equation.
    pub fn is_valid(&self) -> (b: bool)
        ensures
            b == self.wf(),
            b == (self.canonical() && self.on_curve()),
    {
        let p = base_modulus_limbs();
        let below = limbs_less_than(&self.x, &p) && limbs_less_than(&self.y, &p);
        let zero = limbs_are_zero(&self.x) && limbs_are_zero(&self.y);
        if !below || self.infinity != zero {
            false
        } else {
            g1_is_on_curve(self)
        }
    }

    /// The generator `g` of the group.
    pub fn generator() -> (r: Point)
        ensures
            r.wf(),
            r.dlog() == 1,
    {
        g1_generator()
    }

    /// A point of the group drawn from `rng`.
    pub fn random(rng: &mut StdRng) -> (r: Point)
        ensures
            r.wf(),
    {
        g1_rand(rng)
    }

    /// The sum of two points.
    pub fn add(&self, other: &Point) -> (r: Point)
        requires
            self.wf(),
            other.wf(),
        ensures
            r.wf(),
            r.dlog() == (self.dlog() + other.dlog()) % scalar_modulus(),
    {
        g1_add(self, other)
    }

    /// The point added to itself.
    pub fn double(&self) -> (r: Point)
        requires
            self.wf(),
        ensures
            r.wf(),
            r.dlog() == (2 * self.dlog()) % scalar_modulus(),
    {
        g1_double(self)
    }

    /// The multiple of the point by a scalar.
    pub fn mul(&self, s: &Scalar) -> (r: Point)
        requires
            self.wf(),
            s.wf(),
        ensures
            r.wf(),
            r.dlog() == (self.dlog() * s@) % scalar_modulus(),
    {
        g1_mul(self, s)
    }

    /// Whether the two points are the same: for points of the group, whether
    /// they have the same exponent.
    pub fn equals(&self, other: &Point) -> (b: bool)
        ensures
            b == (*self == *other),
            self.wf() && other.wf() ==> b == (self.dlog() == other.dlog()),
    {
        let same_x = self.x[0] == other.x[0] && self.x[1] == other.x[1] && self.x[2] == other.x[2]
            && self.x[3] == other.x[3];
        let same_y = self.y[0] == other.y[0] && self.y[1] == other.y[1] && self.y[2] == other.y[2]
            && self.y[3] == other.y[3];
        let b = same_x && same_y && self.infinity == other.infinity;
        proof {
            if b {
                assert(self.x =~= other.x);
                assert(self.y =~= other.y);
            }
        }
        b
    }
}

/// Every point of the sequence belongs to the group.
pub open spec fn points_wf(points: Seq<Point>) -> bool {
    forall|i: int| 0 <= i < points.len() ==> (#[trigger] points[i]).wf()
}

/// Whether every point of the vector belongs to the group.
pub fn all_valid(points: &Vec<Point>) -> (b: bool)
    ensures
        b == points_wf(points@),
{
    let n = points.len();
    for i in 0..n
        invariant
            n == points.len(),
            forall|j: int| 0 <= j < i ==> (#[trigger] points@[j]).wf(),
    {
        if !points[i].is_valid() {
            return false;
        }
    }
    true
}

/// Points of the group with the same exponent are the same point.
pub proof fn lemma_point_determined_by_dlog(p: Point, q: Point)
    requires
        p.wf(),
        q.wf(),
        p.dlog() == q.dlog(),
    ensures
        p == q,
{
}

/// `G1Projective::generator`: the generator of the group, in canonical
/// form; its exponent is one.
#[verifier::external_body]
fn g1_generator() -> (r: Point)
    ensures
        r.wf(),
        r.dlog() == 1,
{
    let g = G1Projective::generator().into_affine();
    Point { x: g.x.into_bigint().0, y: g.y.into_bigint().0, infinity: g.infinity }
}

/// `G1Projective`'s `+`: the sum of two points of the group is a point of
/// the group, in canonical form; the exponents add up modulo the group
/// order.
#[verifier::external_body]
fn g1_add(p: &Point, q: &Point) -> (r: Point)
    requires
        p.wf(),
        q.wf(),
    ensures
        r.wf(),
        r.dlog() == (p.dlog() + q.dlog()) % scalar_modulus(),
{
    let a = G1Affine {
        x: Fq::new(BigInt::new(p.x)),
        y: Fq::new(BigInt::new(p.y)),
        infinity: p.infinity,
    };
    let b = G1Affine {
        x: Fq::new(BigInt::new(q.x)),
        y: Fq::new(BigInt::new(q.y)),
        infinity: q.infinity,
    };
    let r = (G1Projective::from(a) + G1Projective::from(b)).into_affine();
    Point { x: r.x.into_bigint().0, y: r.y.into_bigint().0, infinity: r.infinity }
}

/// `Group::double` on `G1Projective`: the double of a point of the group is
/// a point of the group, in canonical form; the exponent doubles modulo the
/// group order.
#[verifier::external_body]
fn g1_double(p: &Point) -> (r: Point)
    requires
        p.wf(),
    ensures
        r.wf(),
        r.dlog() == (2 * p.dlog()) % scalar_modulus(),
{
    let a = G1Affine {
        x: Fq::new(BigInt::new(p.x)),
        y: Fq::new(BigInt::new(p.y)),
        infinity: p.infinity,
    };
    let r = G1Projective::from(a).double().into_affine();
    Point { x: r.x.into_bigint().0, y: r.y.into_bigint().0, infinity: r.infinity }
}

/// `G1Projective`'s `*` by a scalar: the multiple of a point of the group is
/// the multiple of the generator by the product of the exponent and the
/// scalar, taken modulo the group order, in canonical form.
#[verifier::external_body]
fn g1_mul(p: &Point, s: &Scalar) -> (r: Point)
    requires
        p.wf(),
        s.wf(),
    ensures
        r == generator_multiple((p.dlog() * s@) % scalar_modulus()),
        r.wf(),
        r.dlog() == (p.dlog() * s@) % scalar_modulus(),
{
    let a = G1Affine {
        x: Fq::new(BigInt::new(p.x)),
        y: Fq::new(BigInt::new(p.y)),
        infinity: p.infinity,
    };
    let r = (G1Projective::from(a) * Fr::new(BigInt::new(s.limbs))).into_affine();
    Point { x: r.x.into_bigint().0, y: r.y.into_bigint().0, infinity: r.infinity }
}

/// `G1Affine::is_on_curve`, for coordinates in canonical form: whether they
/// satisfy the curve equation or are those of the neutral element. The curve
/// has cofactor one, so its points are the group, each a multiple of the
/// generator.
#[verifier::external_body]
fn g1_is_on_curve(p: &Point) -> (b: bool)
    requires
        p.canonical(),
    ensures
        b == p.on_curve(),
        b == p.wf(),
{
    let a = G1Affine {
        x: Fq::new(BigInt::new(p.x)),
        y: Fq::new(BigInt::new(p.y)),
        infinity: p.infinity,
    };
    a.is_on_curve()
}

/// `G1Projective::rand`: some point of the group, in canonical form,
/// whatever `rng` yields.
#[verifier::external_body]
fn g1_rand(rng: &mut StdRng) -> (r: Point)
    ensures
        r.wf(),
{
    let p = G1Projective::rand(rng).into_affine();
    Point { x: p.x.into_bigint().0, y: p.y.into_bigint().0, infinity: p.infinity }
}

} // verus!
