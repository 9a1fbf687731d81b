//! Signatures and what makes one valid.

use crate::field::{scalar_modulus, Scalar};
use crate::group::Point;
use crate::schnorr_signature::key::PublicKey;
use crate::schnorr_signature::util::challenge;
use vstd::prelude::*;

verus! {

/// A Schnorr signature `(R, s)`.
#[derive(Clone, Copy, Debug)]
pub struct Signature {
    /// The commitment `R = r * g`.
    pub r_g: Point,
    /// The response `s = r + H(R, m) * sk`.
    pub s: Scalar,
}

impl Signature {
    pub open spec fn wf(self) -> bool {
        self.r_g.wf() && self.s.wf()
    }
}

/// The verification equation `s * g = R + c * pk` with `c = H(R, m)`, read
/// in the exponent.
pub open spec fn valid_signature(pk: PublicKey, message: Seq<u8>, signature: Signature) -> bool {
    signature.s@ == (signature.r_g.dlog() + challenge(signature.r_g, message) * pk.pk.dlog())
        % scalar_modulus()
}

} // verus!
