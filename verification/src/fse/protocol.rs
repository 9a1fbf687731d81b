//! Signing a batch, checking the commitment, and recovering the signatures.

use crate::field::{random_scalars, scalar_modulus, scalars_wf, Scalar};
use crate::group::{lemma_point_determined_by_dlog, points_wf, Point};
use crate::modular::{
    lemma_congruent_add, lemma_congruent_half, lemma_congruent_mod, lemma_congruent_small,
    lemma_congruent_sub, lemma_double_injective,
};
use crate::schnorr_signature::key::{generate_key_pair, key_pair, PublicKey, SecretKey};
use crate::schnorr_signature::signature::{valid_signature, Signature};
use crate::schnorr_signature::util::{challenge, challenge_scalar};
use rand::rngs::StdRng;
use vstd::arithmetic::div_mod::lemma_small_mod;
use vstd::prelude::*;

verus! {

pub struct FSE;

/// The byte strings that a vector of messages holds.
pub open spec fn byte_strings(message: Seq<Vec<u8>>) -> Seq<Seq<u8>> {
    message.map_values(|m: Vec<u8>| m@)
}

/// The points commit to the nonces: each is its nonce times the generator.
pub open spec fn commits_to_nonces(r: Seq<Scalar>, r_g: Seq<Point>) -> bool {
    &&& r_g.len() == r.len()
    &&& forall|i: int|
        0 <= i < r.len() ==> (#[trigger] r_g[i]).wf() && r_g[i].dlog() == r[i]@
}

/// Commits to each nonce: `R_i = r_i * g`.
pub fn commit_nonces(g: &Point, r: &Vec<Scalar>) -> (r_g: Vec<Point>)
    requires
        g.wf(),
        g.dlog() == 1,
        scalars_wf(r@),
    ensures
        commits_to_nonces(r@, r_g@),
{
    let n = r.len();
    let mut r_g: Vec<Point> = Vec::new();
    for i in 0..n
        invariant
            n == r.len(),
            scalars_wf(r@),
            g.wf(),
            g.dlog() == 1,
            r_g.len() == i,
            forall|j: int| 0 <= j < i ==> (#[trigger] r_g@[j]).wf() && r_g@[j].dlog() == r[j]@,
    {
        assert(r@[i as int].wf());
        let r_g_i = g.mul(&r[i]);
        proof {
            lemma_congruent_mod((1 * r[i as int]@) as int, scalar_modulus() as int);
            lemma_congruent_small(
                r_g_i.dlog() as int,
                r[i as int]@ as int,
                scalar_modulus() as int,
            );
        }
        r_g.push(r_g_i);
    }
    r_g
}

/// The released value `alpha` blends the Schnorr response to the challenge
/// of `R` on the message, made with the nonce `r`, with the mask `k`:
/// `2 * alpha = r + c * sk + k`.
pub open spec fn blends(
    sk: SecretKey,
    message: Seq<u8>,
    r: nat,
    k: nat,
    alpha: Scalar,
    r_g: Point,
) -> bool {
    &&& alpha.wf()
    &&& (2 * alpha@) % scalar_modulus() == (r + challenge(r_g, message) * sk.sk@ + k)
        % scalar_modulus()
}

/// The share `(alpha, R)` of one message is what the holder of `sk` gives
/// with the nonce `r` and the mask `k`: `R = r * g`, and `alpha` blends the
/// response with the mask.
pub open spec fn share_of(
    sk: SecretKey,
    message: Seq<u8>,
    r: nat,
    k: nat,
    alpha: Scalar,
    r_g: Point,
) -> bool {
    &&& r_g.wf()
    &&& r_g.dlog() == r
    &&& blends(sk, message, r, k, alpha, r_g)
}

/// The transcript `(alpha, R, K, k)` is one that the holder of `sk` gives on
/// the messages, with whatever nonces.
pub open spec fn signed_batch(
    sk: SecretKey,
    message: Seq<Seq<u8>>,
    alpha: Seq<Scalar>,
    r_g: Seq<Point>,
    com_k: Point,
    k: Scalar,
) -> bool {
    &&& alpha.len() == message.len()
    &&& r_g.len() == message.len()
    &&& scalars_wf(alpha)
    &&& points_wf(r_g)
    &&& k.wf()
    &&& com_k.wf()
    &&& com_k.dlog() == k@
    &&& forall|i: int|
        0 <= i < message.len() ==> share_of(
            sk,
            #[trigger] message[i],
            r_g[i].dlog(),
            k@,
            alpha[i],
            r_g[i],
        )
}

/// The verification equation of one message, `(2 * alpha) * g = K + R + c * pk`
/// with `c = H(R, m)`, read in the exponent.
pub open spec fn valid_share(
    pk: PublicKey,
    message: Seq<u8>,
    alpha: Scalar,
    r_g: Point,
    com_k: Point,
) -> bool {
    (2 * alpha@) % scalar_modulus() == (com_k.dlog() + r_g.dlog() + challenge(r_g, message)
        * pk.pk.dlog()) % scalar_modulus()
}

/// The verification equation holds of every message.
pub open spec fn valid_batch(
    pk: PublicKey,
    message: Seq<Seq<u8>>,
    alpha: Seq<Scalar>,
    r_g: Seq<Point>,
    com_k: Point,
) -> bool {
    forall|i: int|
        0 <= i < message.len() ==> valid_share(pk, #[trigger] message[i], alpha[i], r_g[i], com_k)
}

/// The signature that the released key `k` opens: `(R, 2 * alpha - k)`.
pub open spec fn opened(alpha: Scalar, r_g: Point, k: Scalar, signature: Signature) -> bool {
    &&& signature.wf()
    &&& signature.r_g == r_g
    &&& signature.s@ == (2 * alpha@ - k@) % (scalar_modulus() as int)
}

/// The signatures are those that the released key opens, one for each
/// released value.
pub open spec fn recovered(
    alpha: Seq<Scalar>,
    r_g: Seq<Point>,
    k: Scalar,
    signatures: Seq<Signature>,
) -> bool {
    &&& signatures.len() == alpha.len()
    &&& forall|i: int|
        0 <= i < alpha.len() ==> opened(alpha[i], r_g[i], k, #[trigger] signatures[i])
}

impl FSE {
    /// A fresh key pair.
    pub fn gen_key(rng: &mut StdRng) -> (keys: (SecretKey, PublicKey))
        ensures
            key_pair(keys.0, keys.1),
    {
        generate_key_pair(rng)
    }

    /// The released value of one message: half of the Schnorr response plus
    /// the mask, where `half` is the inverse of two.
    pub fn share(
        sk: &SecretKey,
        message: &Vec<u8>,
        r: &Scalar,
        r_g: &Point,
        k: &Scalar,
        half: &Scalar,
    ) -> (alpha: Scalar)
        requires
            sk.wf(),
            r.wf(),
            k.wf(),
            half.wf(),
            (2 * half@) % scalar_modulus() == 1,
        ensures
            blends(*sk, message@, r@, k@, alpha, *r_g),
    {
        let c_i = challenge_scalar(r_g, message.as_slice());
        let s_i = r.add(&c_i.mul(&sk.sk));
        let masked = s_i.add(k);
        let alpha_i = masked.mul(half);
        proof {
            let q = scalar_modulus() as int;
            let r0 = r@ as int;
            let c = c_i@ as int;
            let x = sk.sk@ as int;
            let k0 = k@ as int;
            lemma_congruent_mod(c * x, q);
            lemma_congruent_add(r0, r0, (c * x) % q, c * x, q);
            lemma_congruent_mod(r0 + (c * x) % q, q);
            lemma_congruent_add(s_i@ as int, r0 + c * x, k0, k0, q);
            lemma_congruent_mod(s_i@ + k0, q);
            lemma_congruent_mod((masked@ * half@) as int, q);
            lemma_small_mod(1, scalar_modulus());
            lemma_congruent_half(masked@ as int, half@ as int, alpha_i@ as int, q);
        }
        alpha_i
    }

    /// Signs the batch with the given nonces, one for each message, and the
    /// given mask.
    pub fn sign_with(sk: &SecretKey, message: &Vec<Vec<u8>>, r: &Vec<Scalar>, k: Scalar) -> (out: (
        Vec<Scalar>,
        Vec<Point>,
        Point,
        Scalar,
    ))
        requires
            sk.wf(),
            r.len() == message.len(),
            scalars_wf(r@),
            k.wf(),
        ensures
            signed_batch(*sk, byte_strings(message@), out.0@, out.1@, out.2, out.3),
            out.3 == k,
            forall|i: int| 0 <= i < r.len() ==> (#[trigger] out.1@[i]).dlog() == r[i]@,
    {
        let n = message.len();
        let g = Point::generator();
        let r_g = commit_nonces(&g, r);
        let g_k = g.mul(&k);
        proof {
            lemma_congruent_mod((1 * k@) as int, scalar_modulus() as int);
            lemma_congruent_small(g_k.dlog() as int, k@ as int, scalar_modulus() as int);
        }
        let half = Scalar::half();
        let mut vec_alpha: Vec<Scalar> = Vec::new();
        for i in 0..n
            invariant
                n == message.len(),
                n == r.len(),
                n == r_g.len(),
                sk.wf(),
                k.wf(),
                half.wf(),
                (2 * half@) % scalar_modulus() == 1,
                scalars_wf(r@),
                forall|j: int|
                    0 <= j < n ==> (#[trigger] r_g@[j]).wf() && r_g@[j].dlog() == r[j]@,
                vec_alpha.len() == i,
                scalars_wf(vec_alpha@),
                forall|j: int|
                    0 <= j < i ==> share_of(
                        *sk,
                        #[trigger] byte_strings(message@)[j],
                        r_g@[j].dlog(),
                        k@,
                        vec_alpha@[j],
                        r_g@[j],
                    ),
        {
            assert(r@[i as int].wf());
            assert(r_g@[i as int].wf());
            let alpha_i = Self::share(sk, &message[i], &r[i], &r_g[i], &k, &half);
            vec_alpha.push(alpha_i);
        }
        (vec_alpha, r_g, g_k, k)
    }

    /// Signs the batch with nonces and a mask drawn from `rng`: first the
    /// nonces, in the order of the messages, then the mask.
    pub fn sign(sk: &SecretKey, message: &Vec<Vec<u8>>, rng: &mut StdRng) -> (out: (
        Vec<Scalar>,
        Vec<Point>,
        Point,
        Scalar,
    ))
        requires
            sk.wf(),
        ensures
            signed_batch(*sk, byte_strings(message@), out.0@, out.1@, out.2, out.3),
    {
        let r = random_scalars(message.len(), rng);
        let k = Scalar::random(rng);
        Self::sign_with(sk, message, &r, k)
    }

    /// Checks the verification equation of one message.
    pub fn check_share(
        pk: &PublicKey,
        message: &Vec<u8>,
        alpha: &Scalar,
        r_g: &Point,
        com_k: &Point,
    ) -> (b: bool)
        requires
            pk.wf(),
            alpha.wf(),
            r_g.wf(),
            com_k.wf(),
        ensures
            b == valid_share(*pk, message@, *alpha, *r_g, *com_k),
    {
        let c_i = challenge_scalar(r_g, message.as_slice());
        let com_i = r_g.add(&pk.pk.mul(&c_i));
        let twice = Scalar::from_u64(2).mul(alpha);
        let lhs = Point::generator().mul(&twice);
        let rhs = com_k.add(&com_i);
        proof {
            let q = scalar_modulus() as int;
            let x = pk.pk.dlog() as int;
            lemma_congruent_mod((1 * twice@) as int, q);
            lemma_congruent_small(lhs.dlog() as int, twice@ as int, q);
            lemma_congruent_mod(x * c_i@, q);
            lemma_congruent_add(r_g.dlog() as int, r_g.dlog() as int, (x * c_i@) % q, x * c_i@, q);
            lemma_congruent_mod(r_g.dlog() + (x * c_i@) % q, q);
            lemma_congruent_add(
                com_k.dlog() as int,
                com_k.dlog() as int,
                com_i.dlog() as int,
                r_g.dlog() + x * c_i@,
                q,
            );
            assert(x * c_i@ == c_i@ * x) by (nonlinear_arith);
        }
        lhs.equals(&rhs)
    }

    /// Accepts the transcript just when the verification equation holds of
    /// every message.
    pub fn verify(
        pk: &PublicKey,
        message: &Vec<Vec<u8>>,
        alpha: &Vec<Scalar>,
        r_g: &Vec<Point>,
        com_k: &Point,
    ) -> (b: bool)
        requires
            pk.wf(),
            alpha.len() == message.len(),
            r_g.len() == message.len(),
            scalars_wf(alpha@),
            points_wf(r_g@),
            com_k.wf(),
        ensures
            b == valid_batch(*pk, byte_strings(message@), alpha@, r_g@, *com_k),
    {
        let n = message.len();
        let mut all = true;
        for i in 0..n
            invariant
                n == message.len(),
                n == alpha.len(),
                n == r_g.len(),
                pk.wf(),
                scalars_wf(alpha@),
                points_wf(r_g@),
                com_k.wf(),
                all == (forall|j: int|
                    0 <= j < i ==> valid_share(
                        *pk,
                        #[trigger] byte_strings(message@)[j],
                        alpha@[j],
                        r_g@[j],
                        *com_k,
                    )),
        {
            assert(alpha@[i as int].wf());
            assert(r_g@[i as int].wf());
            let holds = Self::check_share(pk, &message[i], &alpha[i], &r_g[i], com_k);
            assert(byte_strings(message@)[i as int] == message@[i as int]@);
            all = all && holds;
        }
        all
    }

    /// Opens one released value with the released key: the signature is
    /// `(R, 2 * alpha - k)`.
    pub fn open(alpha: &Scalar, r_g: &Point, k: &Scalar) -> (signature: Signature)
        requires
            alpha.wf(),
            r_g.wf(),
            k.wf(),
        ensures
            opened(*alpha, *r_g, *k, signature),
    {
        let s_i = Scalar::from_u64(2).mul(alpha).sub(k);
        proof {
            let q = scalar_modulus() as int;
            let a = alpha@ as int;
            lemma_congruent_mod(2 * a, q);
            lemma_congruent_sub((2 * a) % q, 2 * a, k@ as int, k@ as int, q);
        }
        Signature { r_g: *r_g, s: s_i }
    }

    /// Opens the batch with the released key: the signature of each message
    /// is `(R, 2 * alpha - k)`.
    pub fn recover(alpha: &Vec<Scalar>, r_g: &Vec<Point>, k: Scalar) -> (signatures: Vec<Signature>)
        requires
            alpha.len() == r_g.len(),
            scalars_wf(alpha@),
            points_wf(r_g@),
            k.wf(),
        ensures
            recovered(alpha@, r_g@, k, signatures@),
    {
        let mut res: Vec<Signature> = Vec::new();
        let n = alpha.len();
        for i in 0..n
            invariant
                n == alpha.len(),
                n == r_g.len(),
                scalars_wf(alpha@),
                points_wf(r_g@),
                k.wf(),
                res.len() == i,
                forall|j: int| 0 <= j < i ==> opened(alpha@[j], r_g@[j], k, #[trigger] res@[j]),
        {
            assert(alpha@[i as int].wf());
            assert(r_g@[i as int].wf());
            let signature = Self::open(&alpha[i], &r_g[i], &k);
            res.push(signature);
        }
        res
    }
}

/// A share that the holder of the secret key gives satisfies the
/// verification equation under the public key, whatever the mask.
pub proof fn lemma_share_verifies(
    sk: SecretKey,
    pk: PublicKey,
    message: Seq<u8>,
    k: Scalar,
    com_k: Point,
    alpha: Scalar,
    r_g: Point,
)
    requires
        key_pair(sk, pk),
        com_k.dlog() == k@,
        share_of(sk, message, r_g.dlog(), k@, alpha, r_g),
    ensures
        valid_share(pk, message, alpha, r_g, com_k),
{
    let r = r_g.dlog() as int;
    let c = challenge(r_g, message) as int;
    let x = sk.sk@ as int;
    assert(r + c * x + k@ == k@ + r + c * x);
}

/// A transcript that the holder of the secret key gives on a batch of
/// messages is accepted under the public key.
pub proof fn lemma_signed_batch_verifies(
    sk: SecretKey,
    pk: PublicKey,
    message: Seq<Seq<u8>>,
    alpha: Seq<Scalar>,
    r_g: Seq<Point>,
    com_k: Point,
    k: Scalar,
)
    requires
        key_pair(sk, pk),
        signed_batch(sk, message, alpha, r_g, com_k, k),
    ensures
        valid_batch(pk, message, alpha, r_g, com_k),
{
    assert forall|i: int| 0 <= i < message.len() implies valid_share(
        pk,
        #[trigger] message[i],
        alpha[i],
        r_g[i],
        com_k,
    ) by {
        lemma_share_verifies(sk, pk, message[i], k, com_k, alpha[i], r_g[i]);
    }
}

/// The recover equation: what the released key opens is the Schnorr response
/// itself, `2 * alpha - k = r + c * sk`.
pub proof fn lemma_recover_equation(
    sk: SecretKey,
    message: Seq<u8>,
    r: nat,
    k: Scalar,
    alpha: Scalar,
    r_g: Point,
)
    requires
        sk.wf(),
        k.wf(),
        share_of(sk, message, r, k@, alpha, r_g),
    ensures
        (2 * alpha@ - k@) % (scalar_modulus() as int) == (r + challenge(r_g, message) * sk.sk@)
            % scalar_modulus(),
{
    let q = scalar_modulus() as int;
    let s = (r + challenge(r_g, message) * sk.sk@) as int;
    let a = alpha@ as int;
    let k0 = k@ as int;
    lemma_congruent_sub(2 * a, s + k0, k0, k0, q);
}

/// Each signature that the released key opens from a transcript of the
/// holder of the secret key is valid for its message under the public key.
pub proof fn lemma_recovered_signatures_verify(
    sk: SecretKey,
    pk: PublicKey,
    message: Seq<Seq<u8>>,
    alpha: Seq<Scalar>,
    r_g: Seq<Point>,
    com_k: Point,
    k: Scalar,
    signatures: Seq<Signature>,
)
    requires
        key_pair(sk, pk),
        signed_batch(sk, message, alpha, r_g, com_k, k),
        recovered(alpha, r_g, k, signatures),
    ensures
        signatures.len() == message.len(),
        forall|i: int|
            0 <= i < message.len() ==> valid_signature(pk, message[i], #[trigger] signatures[i]),
{
    assert forall|i: int| 0 <= i < message.len() implies valid_signature(
        pk,
        message[i],
        #[trigger] signatures[i],
    ) by {
        assert(share_of(sk, message[i], r_g[i].dlog(), k@, alpha[i], r_g[i]));
        assert(opened(alpha[i], r_g[i], k, signatures[i]));
        lemma_recover_equation(sk, message[i], r_g[i].dlog(), k, alpha[i], r_g[i]);
    }
}

/// Tampering with a released value is detected: where one value satisfies
/// the verification equation of a message, no other value does.
pub proof fn lemma_tampered_alpha_rejected(
    pk: PublicKey,
    message: Seq<u8>,
    alpha: Scalar,
    tampered: Scalar,
    r_g: Point,
    com_k: Point,
)
    requires
        alpha.wf(),
        tampered.wf(),
        tampered@ != alpha@,
        valid_share(pk, message, alpha, r_g, com_k),
    ensures
        !valid_share(pk, message, tampered, r_g, com_k),
{
    if valid_share(pk, message, tampered, r_g, com_k) {
        lemma_double_injective(alpha@ as int, tampered@ as int, scalar_modulus() as int);
    }
}

/// Tampering with the commitment to the mask is detected: where one point
/// satisfies the verification equation of a message, no other point of the
/// group does.
pub proof fn lemma_tampered_mask_rejected(
    pk: PublicKey,
    message: Seq<u8>,
    alpha: Scalar,
    r_g: Point,
    com_k: Point,
    tampered: Point,
)
    requires
        com_k.wf(),
        tampered.wf(),
        tampered != com_k,
        valid_share(pk, message, alpha, r_g, com_k),
    ensures
        !valid_share(pk, message, alpha, r_g, tampered),
{
    if valid_share(pk, message, alpha, r_g, tampered) {
        let q = scalar_modulus() as int;
        let rest = (r_g.dlog() + challenge(r_g, message) * pk.pk.dlog()) as int;
        let d = com_k.dlog() as int;
        let t = tampered.dlog() as int;
        lemma_congruent_sub(d + rest, t + rest, rest, rest, q);
        lemma_congruent_small(d, t, q);
        lemma_point_determined_by_dlog(com_k, tampered);
    }
}

/// Tampering with a commitment is detected unless the new commitment and its
/// new challenge happen to add up to the old exponent: where one point
/// satisfies the verification equation of a message, another point of the
/// group does so only if `R' + H(R', m) * pk = R + H(R, m) * pk`.
pub proof fn lemma_tampered_commitment_rejected(
    pk: PublicKey,
    message: Seq<u8>,
    alpha: Scalar,
    r_g: Point,
    tampered: Point,
    com_k: Point,
)
    requires
        r_g.wf(),
        tampered.wf(),
        tampered != r_g,
        valid_share(pk, message, alpha, r_g, com_k),
        (tampered.dlog() + challenge(tampered, message) * pk.pk.dlog()) % scalar_modulus() != (
        r_g.dlog() + challenge(r_g, message) * pk.pk.dlog()) % scalar_modulus(),
    ensures
        !valid_share(pk, message, alpha, tampered, com_k),
{
    if valid_share(pk, message, alpha, tampered, com_k) {
        let q = scalar_modulus() as int;
        let new = (tampered.dlog() + challenge(tampered, message) * pk.pk.dlog()) as int;
        let old = (r_g.dlog() + challenge(r_g, message) * pk.pk.dlog()) as int;
        let d = com_k.dlog() as int;
        lemma_congruent_sub(d + new, d + old, d, d, q);
    }
}

/// A batch in which any one released value has been replaced by another is
/// rejected, where the batch as it was is accepted.
pub proof fn lemma_tampered_batch_rejected(
    pk: PublicKey,
    message: Seq<Seq<u8>>,
    alpha: Seq<Scalar>,
    r_g: Seq<Point>,
    com_k: Point,
    i: int,
    tampered: Scalar,
)
    requires
        0 <= i < message.len(),
        alpha.len() == message.len(),
        alpha[i].wf(),
        tampered.wf(),
        tampered@ != alpha[i]@,
        valid_batch(pk, message, alpha, r_g, com_k),
    ensures
        !valid_batch(pk, message, alpha.update(i, tampered), r_g, com_k),
{
    assert(valid_share(pk, message[i], alpha[i], r_g[i], com_k));
    lemma_tampered_alpha_rejected(pk, message[i], alpha[i], tampered, r_g[i], com_k);
    assert(alpha.update(i, tampered)[i] == tampered);
}

/// A batch of at least one message in which the commitment to the mask has
/// been replaced by another point of the group is rejected, where the batch
/// as it was is accepted.
pub proof fn lemma_tampered_batch_mask_rejected(
    pk: PublicKey,
    message: Seq<Seq<u8>>,
    alpha: Seq<Scalar>,
    r_g: Seq<Point>,
    com_k: Point,
    tampered: Point,
)
    requires
        message.len() > 0,
        com_k.wf(),
        tampered.wf(),
        tampered != com_k,
        valid_batch(pk, message, alpha, r_g, com_k),
    ensures
        !valid_batch(pk, message, alpha, r_g, tampered),
{
    assert(valid_share(pk, message[0], alpha[0], r_g[0], com_k));
    lemma_tampered_mask_rejected(pk, message[0], alpha[0], r_g[0], com_k, tampered);
}

/// A batch in which any one commitment has been replaced by another point of
/// the group is rejected, where the batch as it was is accepted, unless the
/// new commitment and its new challenge happen to add up to the old exponent.
pub proof fn lemma_tampered_batch_commitment_rejected(
    pk: PublicKey,
    message: Seq<Seq<u8>>,
    alpha: Seq<Scalar>,
    r_g: Seq<Point>,
    com_k: Point,
    i: int,
    tampered: Point,
)
    requires
        0 <= i < message.len(),
        r_g.len() == message.len(),
        r_g[i].wf(),
        tampered.wf(),
        tampered != r_g[i],
        valid_batch(pk, message, alpha, r_g, com_k),
        (tampered.dlog() + challenge(tampered, message[i]) * pk.pk.dlog()) % scalar_modulus() != (
        r_g[i].dlog() + challenge(r_g[i], message[i]) * pk.pk.dlog()) % scalar_modulus(),
    ensures
        !valid_batch(pk, message, alpha, r_g.update(i, tampered), com_k),
{
    assert(valid_share(pk, message[i], alpha[i], r_g[i], com_k));
    lemma_tampered_commitment_rejected(pk, message[i], alpha[i], r_g[i], tampered, com_k);
    assert(r_g.update(i, tampered)[i] == tampered);
}

} // verus!
