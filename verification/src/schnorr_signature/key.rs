//! Key pairs.

use crate::field::Scalar;
use crate::group::Point;
use rand::rngs::StdRng;
use vstd::prelude::*;

verus! {

/// The signer's secret: a scalar `sk`.
#[derive(Clone, Copy, Debug)]
pub struct SecretKey {
    pub sk: Scalar,
}

/// The public key: the point `pk = sk * g`.
#[derive(Clone, Copy, Debug)]
pub struct PublicKey {
    pub pk: Point,
}

impl SecretKey {
    pub open spec fn wf(self) -> bool {
        self.sk.wf()
    }
}

impl PublicKey {
    pub open spec fn wf(self) -> bool {
        self.pk.wf()
    }
}

/// The public key belongs to the secret key.
pub open spec fn key_pair(sk: SecretKey, pk: PublicKey) -> bool {
    sk.wf() && pk.wf() && pk.pk.dlog() == sk.sk@
}

/// The key pair of a given secret scalar.
pub fn key_pair_of(sk: Scalar) -> (keys: (SecretKey, PublicKey))
    requires
        sk.wf(),
    ensures
        keys.0.sk == sk,
        key_pair(keys.0, keys.1),
{
    let pk = Point::generator().mul(&sk);
    assert((1 * sk@) % crate::field::scalar_modulus() == sk@);
    (SecretKey { sk }, PublicKey { pk })
}

/// A fresh key pair: a secret scalar drawn from `rng`, and its public key.
pub fn generate_key_pair(rng: &mut StdRng) -> (keys: (SecretKey, PublicKey))
    ensures
        key_pair(keys.0, keys.1),
{
    let sk = Scalar::random(rng);
    key_pair_of(sk)
}

} // verus!
