//! The scalar field of the group: integers modulo the group order.

use ark_bn254::Fr;
use ark_ff::{BigInt, PrimeField};
use ark_std::UniformRand;
use rand::rngs::StdRng;
use vstd::prelude::*;

verus! {

/// `rand::rngs::StdRng`, the source of randomness, which is carried through
/// to the sampling routines.
#[verifier::external_type_specification]
#[verifier::external_body]
pub struct ExStdRng(StdRng);

/// The prime order `q` of the group, which is the modulus of the scalar field.
pub open spec fn scalar_modulus() -> nat {
    21888242871839275222246405745257275088548364400416034343698204186575808495617nat
}

/// The integer that four 64-bit words hold, least significant word first.
pub open spec fn limbs_value(l: [u64; 4]) -> nat {
    (l[0] as nat) + (l[1] as nat) * 0x1_0000_0000_0000_0000nat + (l[2] as nat)
        * 0x1_0000_0000_0000_0000_0000_0000_0000_0000nat + (l[3] as nat)
        * 0x1_0000_0000_0000_0000_0000_0000_0000_0000_0000_0000_0000_0000nat
}

/// The words of the modulus of the scalar field.
pub fn scalar_modulus_limbs() -> (l: [u64; 4])
    ensures
        limbs_value(l) == scalar_modulus(),
{
    [0x43e1f593f0000001, 0x2833e84879b97091, 0xb85045b68181585d, 0x30644e72e131a029]
}

/// Whether the integer that `a` holds lies below the one that `b` holds.
pub fn limbs_less_than(a: &[u64; 4], b: &[u64; 4]) -> (r: bool)
    ensures
        r == (limbs_value(*a) < limbs_value(*b)),
{
    if a[3] != b[3] {
        a[3] < b[3]
    } else if a[2] != b[2] {
        a[2] < b[2]
    } else if a[1] != b[1] {
        a[1] < b[1]
    } else {
        a[0] < b[0]
    }
}

/// Whether all four words are zero, which is whether they hold zero.
pub fn limbs_are_zero(a: &[u64; 4]) -> (r: bool)
    ensures
        r == (limbs_value(*a) == 0),
{
    a[0] == 0 && a[1] == 0 && a[2] == 0 && a[3] == 0
}

/// The integer that a byte string holds, least significant byte first.
pub open spec fn le_bytes_value(bytes: Seq<u8>) -> nat
    decreases bytes.len(),
{
    if bytes.len() == 0 {
        0
    } else {
        (bytes[0] as nat) + 256 * le_bytes_value(bytes.drop_first())
    }
}

/// An element of the scalar field, held as its canonical representative.
#[derive(Clone, Copy, Debug, PartialEq, Eq)]
pub struct Scalar {
    pub limbs: [u64; 4],
}

impl View for Scalar {
    type V = nat;

    open spec fn view(&self) -> nat {
        limbs_value(self.limbs)
    }
}

impl Scalar {
    /// The representative is canonical: it lies below the modulus.
    pub open spec fn wf(self) -> bool {
        self@ < scalar_modulus()
    }

    /// Whether the words hold a canonical representative.
    pub fn is_canonical(&self) -> (b: bool)
        ensures
            b == self.wf(),
    {
        limbs_less_than(&self.limbs, &scalar_modulus_limbs())
    }

    /// The scalar that a small integer stands for.
    pub fn from_u64(x: u64) -> (r: Scalar)
        ensures
            r.wf(),
            r@ == x,
    {
        Scalar { limbs: [x, 0, 0, 0] }
    }

    /// The inverse of two: the scalar whose double is one. There is one,
    /// since the modulus is odd.
    pub fn half() -> (r: Scalar)
        ensures
            r.wf(),
            (2 * r@) % scalar_modulus() == 1,
    {
        let r = Scalar::from_u64(1).div(&Scalar::from_u64(2));
        assert(r@ * 2 == 2 * r@);
        r
    }

    /// The byte string read as a little-endian integer and reduced modulo `q`.
    pub fn from_le_bytes_mod_order(bytes: &[u8]) -> (r: Scalar)
        ensures
            r.wf(),
            r@ == le_bytes_value(bytes@) % scalar_modulus(),
    {
        fr_from_le_bytes_mod_order(bytes)
    }

    /// A scalar drawn from `rng`.
    pub fn random(rng: &mut StdRng) -> (r: Scalar)
        ensures
            r.wf(),
    {
        fr_rand(rng)
    }

    /// Whether the two scalars are the same field element.
    pub fn equals(&self, other: &Scalar) -> (b: bool)
        ensures
            b == (self.limbs == other.limbs),
            b ==> self@ == other@,
            self.wf() && other.wf() ==> b == (self@ == other@),
    {
        let b = self.limbs[0] == other.limbs[0] && self.limbs[1] == other.limbs[1]
            && self.limbs[2] == other.limbs[2] && self.limbs[3] == other.limbs[3];
        proof {
            if b {
                assert(self.limbs@ =~= other.limbs@);
            }
            if self@ == other@ {
                lemma_limbs_value_injective(self.limbs, other.limbs);
            }
        }
        b
    }

    /// The sum in the field.
    pub fn add(&self, other: &Scalar) -> (r: Scalar)
        requires
            self.wf(),
            other.wf(),
        ensures
            r.wf(),
            r@ == (self@ + other@) % scalar_modulus(),
    {
        fr_add(self, other)
    }

    /// The difference in the field.
    pub fn sub(&self, other: &Scalar) -> (r: Scalar)
        requires
            self.wf(),
            other.wf(),
        ensures
            r.wf(),
            r@ == (self@ - other@) % (scalar_modulus() as int),
    {
        fr_sub(self, other)
    }

    /// The product in the field.
    pub fn mul(&self, other: &Scalar) -> (r: Scalar)
        requires
            self.wf(),
            other.wf(),
        ensures
            r.wf(),
            r@ == (self@ * other@) % scalar_modulus(),
    {
        fr_mul(self, other)
    }

    /// The quotient in the field: the one element whose product with the
    /// divisor is the dividend.
    pub fn div(&self, other: &Scalar) -> (r: Scalar)
        requires
            self.wf(),
            other.wf(),
            other@ != 0,
        ensures
            r.wf(),
            (r@ * other@) % scalar_modulus() == self@,
    {
        fr_div(self, other)
    }
}

/// Every scalar of the sequence is canonical.
pub open spec fn scalars_wf(scalars: Seq<Scalar>) -> bool {
    forall|i: int| 0 <= i < scalars.len() ==> (#[trigger] scalars[i]).wf()
}

/// Whether every scalar of the vector is canonical.
pub fn all_canonical(scalars: &Vec<Scalar>) -> (b: bool)
    ensures
        b == scalars_wf(scalars@),
{
    let n = scalars.len();
    for i in 0..n
        invariant
            n == scalars.len(),
            forall|j: int| 0 <= j < i ==> (#[trigger] scalars@[j]).wf(),
    {
        if !scalars[i].is_canonical() {
            return false;
        }
    }
    true
}

/// As many scalars as asked for, drawn from `rng` one after the other.
pub fn random_scalars(n: usize, rng: &mut StdRng) -> (r: Vec<Scalar>)
    ensures
        r.len() == n,
        scalars_wf(r@),
{
    let mut r: Vec<Scalar> = Vec::new();
    for i in 0..n
        invariant
            r.len() == i,
            scalars_wf(r@),
    {
        let r_i = Scalar::random(rng);
        r.push(r_i);
    }
    r
}

/// Four words are determined by the integer that they hold.
pub proof fn lemma_limbs_value_injective(a: [u64; 4], b: [u64; 4])
    requires
        limbs_value(a) == limbs_value(b),
    ensures
        a == b,
{
    assert(a[0] == b[0] && a[1] == b[1] && a[2] == b[2] && a[3] == b[3]);
    assert(a@ =~= b@);
}

/// `Fr`'s `+`: the sum of two canonical elements, reduced modulo `q`.
#[verifier::external_body]
fn fr_add(a: &Scalar, b: &Scalar) -> (r: Scalar)
    requires
        a.wf(),
        b.wf(),
    ensures
        r.wf(),
        r@ == (a@ + b@) % scalar_modulus(),
{
    let sum = Fr::new(BigInt::new(a.limbs)) + Fr::new(BigInt::new(b.limbs));
    Scalar { limbs: sum.into_bigint().0 }
}

/// `Fr`'s `-`: the difference of two canonical elements, reduced modulo `q`
/// into `[0, q)`.
#[verifier::external_body]
fn fr_sub(a: &Scalar, b: &Scalar) -> (r: Scalar)
    requires
        a.wf(),
        b.wf(),
    ensures
        r.wf(),
        r@ == (a@ - b@) % (scalar_modulus() as int),
{
    let difference = Fr::new(BigInt::new(a.limbs)) - Fr::new(BigInt::new(b.limbs));
    Scalar { limbs: difference.into_bigint().0 }
}

/// `Fr`'s `*`: the product of two canonical elements, reduced modulo `q`.
#[verifier::external_body]
fn fr_mul(a: &Scalar, b: &Scalar) -> (r: Scalar)
    requires
        a.wf(),
        b.wf(),
    ensures
        r.wf(),
        r@ == (a@ * b@) % scalar_modulus(),
{
    let product = Fr::new(BigInt::new(a.limbs)) * Fr::new(BigInt::new(b.limbs));
    Scalar { limbs: product.into_bigint().0 }
}

/// `Fr`'s `/`, which multiplies by the inverse of the divisor and panics
/// when there is none: for a divisor other than zero, the element whose
/// product with the divisor is the dividend.
#[verifier::external_body]
fn fr_div(a: &Scalar, b: &Scalar) -> (r: Scalar)
    requires
        a.wf(),
        b.wf(),
        b@ != 0,
    ensures
        r.wf(),
        (r@ * b@) % scalar_modulus() == a@,
{
    let quotient = Fr::new(BigInt::new(a.limbs)) / Fr::new(BigInt::new(b.limbs));
    Scalar { limbs: quotient.into_bigint().0 }
}

/// `Fr::from_le_bytes_mod_order`: the little-endian integer that the bytes
/// hold, reduced modulo `q`.
#[verifier::external_body]
fn fr_from_le_bytes_mod_order(bytes: &[u8]) -> (r: Scalar)
    ensures
        r.wf(),
        r@ == le_bytes_value(bytes@) % scalar_modulus(),
{
    Scalar { limbs: Fr::from_le_bytes_mod_order(bytes).into_bigint().0 }
}

/// `Fr::rand`: some canonical element, whatever `rng` yields.
#[verifier::external_body]
fn fr_rand(rng: &mut StdRng) -> (r: Scalar)
    ensures
        r.wf(),
{
    Scalar { limbs: Fr::rand(rng).into_bigint().0 }
}

} // verus!
