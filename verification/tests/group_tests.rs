use ark_bn254::G1Projective;
use ark_ec::{CurveGroup, Group};
use ark_ff::{BigInteger, PrimeField};
use ark_std::UniformRand;
use fde::field::Scalar;
use fde::group::Point;
use fde::schnorr_signature::util::{challenge_scalar, group_element_into_bytes};
use rand::rngs::StdRng;
use rand::SeedableRng;

const TWO_G: Point = Point {
    x: [0xd3c208c16d87cfd3, 0xd97816a916871ca8, 0x9b85045b68181585, 0x030644e72e131a02],
    y: [0xff3ebf7a5a18a2c4, 0x68a6a449e3538fc7, 0xe7845f96b2ae9c0a, 0x15ed738c0e0a7c92],
    infinity: false,
};

const THREE_G: Point = Point {
    x: [0xf2d355961915abf0, 0x9315d84715b8e679, 0xf40232bcb1b6bd15, 0x0769bf9ac56bea3f],
    y: [0xcdf1ff3dd9fe2261, 0x319e63b40b9c5b57, 0x554fdb7c8d086475, 0x2ab799bee0489429],
    infinity: false,
};

const IDENTITY: Point = Point { x: [0, 0, 0, 0], y: [0, 0, 0, 0], infinity: true };

#[test]
fn generator_has_coordinates_one_and_two() {
    let g = Point::generator();
    assert_eq!(g, Point { x: [1, 0, 0, 0], y: [2, 0, 0, 0], infinity: false });
}

#[test]
fn doubling_the_generator() {
    let g = Point::generator();
    assert_eq!(g.double(), TWO_G);
    assert_eq!(g.add(&g), TWO_G);
    assert_eq!(g.mul(&Scalar::from_u64(2)), TWO_G);
}

#[test]
fn tripling_the_generator() {
    let g = Point::generator();
    assert_eq!(g.double().add(&g), THREE_G);
    assert_eq!(g.add(&g.double()), THREE_G);
    assert_eq!(g.mul(&Scalar::from_u64(3)), THREE_G);
}

#[test]
fn multiples_of_the_generator_add_up() {
    let g = Point::generator();
    let a = Scalar::from_u64(1234567);
    let b = Scalar::from_u64(7654321);
    assert_eq!(g.mul(&a).add(&g.mul(&b)), g.mul(&a.add(&b)));
    assert_eq!(g.mul(&a).mul(&b), g.mul(&a.mul(&b)));
    assert_eq!(g.mul(&a).double(), g.mul(&a.mul(&Scalar::from_u64(2))));
}

#[test]
fn the_group_order_annihilates() {
    let g = Point::generator();
    assert_eq!(g.mul(&Scalar::from_u64(0)), IDENTITY);
    let minus_one = Scalar::from_u64(0).sub(&Scalar::from_u64(1));
    assert_eq!(g.mul(&minus_one).add(&g), IDENTITY);
    assert_eq!(IDENTITY.add(&g), g);
    assert_eq!(IDENTITY.double(), IDENTITY);
    assert_eq!(IDENTITY.mul(&Scalar::from_u64(5)), IDENTITY);
}

#[test]
fn equals_compares_points() {
    let g = Point::generator();
    assert!(g.double().equals(&TWO_G));
    assert!(!g.equals(&TWO_G));
    assert!(!IDENTITY.equals(&g));
    assert!(IDENTITY.equals(&g.mul(&Scalar::from_u64(0))));
}

#[test]
fn random_points_follow_the_seed_and_lie_on_the_curve() {
    let mut rng = StdRng::seed_from_u64(3);
    let mut again = StdRng::seed_from_u64(3);
    let p = Point::random(&mut rng);
    assert_eq!(p, Point::random(&mut again));
    let q = G1Projective::rand(&mut StdRng::seed_from_u64(3)).into_affine();
    assert!(q.is_on_curve());
    assert_eq!(p.x, q.x.into_bigint().0);
    assert_eq!(p.y, q.y.into_bigint().0);
    assert_ne!(p, Point::random(&mut rng));
}

#[test]
fn encoding_of_the_generator() {
    let bytes = group_element_into_bytes(&Point::generator());
    let mut expected = vec![0u8; 64];
    expected[0] = 1;
    expected[32] = 2;
    assert_eq!(bytes, expected);
}

#[test]
fn encoding_is_little_endian_in_each_coordinate() {
    let bytes = group_element_into_bytes(&TWO_G);
    assert_eq!(bytes.len(), 64);
    assert_eq!(&bytes[0..8], &[0xd3, 0xcf, 0x87, 0x6d, 0xc1, 0x08, 0xc2, 0xd3]);
    assert_eq!(bytes[31], 0x03);
    assert_eq!(&bytes[32..40], &[0xc4, 0xa2, 0x18, 0x5a, 0x7a, 0xbf, 0x3e, 0xff]);
    assert_eq!(bytes[63], 0x15);
}

#[test]
fn encoding_of_the_neutral_element_is_all_zero() {
    let bytes = group_element_into_bytes(&IDENTITY);
    assert_eq!(bytes, vec![0u8; 64]);
    assert_ne!(bytes, group_element_into_bytes(&Point::generator()));
}

#[test]
fn encoding_agrees_with_the_coordinates_of_the_curve_library() {
    let mut rng = StdRng::seed_from_u64(11);
    for _ in 0..10 {
        let s = Scalar::random(&mut rng);
        let p = Point::generator().mul(&s);
        let a = (G1Projective::generator()
            * ark_bn254::Fr::from_bigint(ark_ff::BigInt::new(s.limbs)).unwrap())
        .into_affine();
        let mut expected = a.x.into_bigint().to_bytes_le();
        expected.extend(a.y.into_bigint().to_bytes_le());
        assert_eq!(group_element_into_bytes(&p), expected);
    }
}

#[test]
fn encoding_tells_points_apart() {
    let g = Point::generator();
    let mut seen = Vec::new();
    for k in 0..50u64 {
        let bytes = group_element_into_bytes(&g.mul(&Scalar::from_u64(k)));
        assert!(!seen.contains(&bytes));
        seen.push(bytes);
    }
}

#[test]
fn challenge_hashes_the_encoding_followed_by_the_message() {
    let c = challenge_scalar(&Point::generator(), &[0u8, 1u8, 2u8, 3u8]);
    assert_eq!(
        c.limbs,
        [0xc3859ce366305e6e, 0x6b964f22a6cab9bb, 0xadb269c46d18e4db, 0x0a3c92107b24972e]
    );
    let mut bytes = group_element_into_bytes(&Point::generator());
    bytes.extend_from_slice(&[0u8, 1u8, 2u8, 3u8]);
    assert_eq!(c, fde::hash::Hash256::hash_bytes(&bytes));
}
