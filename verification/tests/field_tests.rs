use ark_bn254::Fr;
use ark_ff::{BigInt, PrimeField};
use fde::field::Scalar;
use rand::rngs::StdRng;
use rand::SeedableRng;

const Q_MINUS_ONE: [u64; 4] =
    [0x43e1f593f0000000, 0x2833e84879b97091, 0xb85045b68181585d, 0x30644e72e131a029];

const HALF: [u64; 4] =
    [0xa1f0fac9f8000001, 0x9419f4243cdcb848, 0xdc2822db40c0ac2e, 0x183227397098d014];

#[test]
fn scalar_addition_adds_small_integers() {
    let a = Scalar::from_u64(3);
    let b = Scalar::from_u64(4);
    assert_eq!(a.add(&b), Scalar::from_u64(7));
}

#[test]
fn scalar_from_u64_holds_the_integer_in_the_lowest_word() {
    assert_eq!(Scalar::from_u64(0).limbs, [0, 0, 0, 0]);
    assert_eq!(Scalar::from_u64(u64::MAX).limbs, [u64::MAX, 0, 0, 0]);
}

#[test]
fn scalar_addition_wraps_at_the_modulus() {
    let top = Scalar { limbs: Q_MINUS_ONE };
    assert_eq!(top.add(&Scalar::from_u64(1)), Scalar::from_u64(0));
    assert_eq!(top.add(&Scalar::from_u64(2)), Scalar::from_u64(1));
}

#[test]
fn scalar_addition_carries_between_words() {
    let a = Scalar { limbs: [u64::MAX, 0, 0, 0] };
    assert_eq!(a.add(&Scalar::from_u64(1)).limbs, [0, 1, 0, 0]);
}

#[test]
fn scalar_subtraction_wraps_below_zero() {
    let top = Scalar { limbs: Q_MINUS_ONE };
    assert_eq!(Scalar::from_u64(0).sub(&Scalar::from_u64(1)), top);
    assert_eq!(Scalar::from_u64(9).sub(&Scalar::from_u64(4)), Scalar::from_u64(5));
}

#[test]
fn scalar_multiplication_multiplies() {
    assert_eq!(Scalar::from_u64(6).mul(&Scalar::from_u64(7)), Scalar::from_u64(42));
    let top = Scalar { limbs: Q_MINUS_ONE };
    assert_eq!(top.mul(&top), Scalar::from_u64(1));
    let big = Scalar { limbs: [0, 1, 0, 0] };
    assert_eq!(big.mul(&big).limbs, [0, 0, 1, 0]);
}

#[test]
fn scalar_division_inverts_multiplication() {
    assert_eq!(Scalar::from_u64(42).div(&Scalar::from_u64(7)), Scalar::from_u64(6));
    let half = Scalar::from_u64(1).div(&Scalar::from_u64(2));
    assert_eq!(half.limbs, HALF);
    assert_eq!(half.mul(&Scalar::from_u64(2)), Scalar::from_u64(1));
}

#[test]
fn half_is_the_inverse_of_two() {
    let half = Scalar::half();
    assert_eq!(half.limbs, HALF);
    assert_eq!(half.add(&half), Scalar::from_u64(1));
    assert_eq!(Scalar::from_u64(10).mul(&half), Scalar::from_u64(5));
    assert_eq!(Scalar::from_u64(7).mul(&half), Scalar::from_u64(7).div(&Scalar::from_u64(2)));
}

#[test]
fn scalar_from_bytes_reads_little_endian() {
    assert_eq!(Scalar::from_le_bytes_mod_order(&[]), Scalar::from_u64(0));
    assert_eq!(Scalar::from_le_bytes_mod_order(&[1, 2]), Scalar::from_u64(0x0201));
    let mut nine = [0u8; 9];
    nine[8] = 1;
    assert_eq!(Scalar::from_le_bytes_mod_order(&nine).limbs, [0, 1, 0, 0]);
}

#[test]
fn scalar_from_bytes_reduces_modulo_the_order() {
    let mut bytes = Vec::new();
    for limb in Q_MINUS_ONE {
        bytes.extend_from_slice(&limb.to_le_bytes());
    }
    assert_eq!(Scalar::from_le_bytes_mod_order(&bytes).limbs, Q_MINUS_ONE);
    bytes[0] += 1;
    assert_eq!(Scalar::from_le_bytes_mod_order(&bytes), Scalar::from_u64(0));
    bytes[0] += 5;
    assert_eq!(Scalar::from_le_bytes_mod_order(&bytes), Scalar::from_u64(5));
    // 2^256 mod q
    let mut wide = [0u8; 33];
    wide[32] = 1;
    assert_eq!(
        Scalar::from_le_bytes_mod_order(&wide).limbs,
        [0xac96341c4ffffffb, 0x36fc76959f60cd29, 0x666ea36f7879462e, 0x0e0a77c19a07df2f]
    );
}

#[test]
fn scalar_equals_compares_words() {
    let a = Scalar::from_u64(5);
    assert!(a.equals(&Scalar::from_u64(5)));
    assert!(!a.equals(&Scalar::from_u64(6)));
    assert!(!a.equals(&Scalar { limbs: [5, 0, 0, 1] }));
}

#[test]
fn random_scalars_are_canonical_and_follow_the_seed() {
    let mut rng = StdRng::seed_from_u64(0);
    let mut again = StdRng::seed_from_u64(0);
    for _ in 0..20 {
        let s = Scalar::random(&mut rng);
        assert_eq!(Fr::from_bigint(BigInt::new(s.limbs)).map(|x| x.into_bigint().0), Some(s.limbs));
        assert_eq!(s, Scalar::random(&mut again));
    }
    let mut other = StdRng::seed_from_u64(1);
    assert_ne!(Scalar::random(&mut StdRng::seed_from_u64(0)), Scalar::random(&mut other));
}

#[test]
fn scalar_arithmetic_agrees_with_the_field() {
    let mut rng = StdRng::seed_from_u64(7);
    for _ in 0..20 {
        let a = Scalar::random(&mut rng);
        let b = Scalar::random(&mut rng);
        let x = Fr::from_bigint(BigInt::new(a.limbs)).unwrap();
        let y = Fr::from_bigint(BigInt::new(b.limbs)).unwrap();
        assert_eq!(a.add(&b).limbs, (x + y).into_bigint().0);
        assert_eq!(a.sub(&b).limbs, (x - y).into_bigint().0);
        assert_eq!(a.mul(&b).limbs, (x * y).into_bigint().0);
        assert_eq!(a.div(&b).mul(&b), a);
    }
}
