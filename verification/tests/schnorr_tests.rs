use fde::field::Scalar;
use fde::group::Point;
use fde::schnorr_signature::key::{generate_key_pair, key_pair_of, PublicKey, SecretKey};
use fde::schnorr_signature::signature::Signature;
use fde::schnorr_signature::signer::Signer;
use fde::schnorr_signature::util::challenge_scalar;
use fde::schnorr_signature::verifying::Verifier;
use rand::rngs::StdRng;
use rand::{thread_rng, SeedableRng};

#[test]
fn test_schnorr_signature() {
    let mut rng = StdRng::from_rng(thread_rng()).unwrap();
    let message = [0u8, 1u8, 2u8, 3u8];
    let (sk, pk): (SecretKey, PublicKey) = generate_key_pair(&mut rng);
    let signer = Signer::new(sk);
    let verifier = Verifier::new(pk);
    let sig = signer.sign(&message.to_vec(), &mut rng);
    assert!(verifier.verify(&message.to_vec(), sig));
}

#[test]
fn single_message_with_seed_zero() {
    let mut rng = StdRng::seed_from_u64(0);
    let message = vec![0u8, 1u8, 2u8, 3u8];
    let (sk, pk) = generate_key_pair(&mut rng);
    let signer = Signer::new(sk);
    let verifier = Verifier::new(pk);
    let sig = signer.sign(&message, &mut rng);
    assert!(verifier.verify(&message, sig));
    let bumped = Signature { r_g: sig.r_g, s: sig.s.add(&Scalar::from_u64(1)) };
    assert!(!verifier.verify(&message, bumped));
}

#[test]
fn key_pair_is_the_secret_times_the_generator() {
    let (sk, pk) = key_pair_of(Scalar::from_u64(3));
    assert_eq!(sk.sk, Scalar::from_u64(3));
    assert_eq!(pk.pk, Point::generator().mul(&Scalar::from_u64(3)));
    let mut rng = StdRng::seed_from_u64(5);
    let (sk, pk) = generate_key_pair(&mut rng);
    assert_eq!(pk.pk, Point::generator().mul(&sk.sk));
}

#[test]
fn signature_with_a_given_nonce() {
    let message = vec![0u8, 1u8, 2u8, 3u8];
    let (sk, pk) = key_pair_of(Scalar::from_u64(5));
    let signer = Signer::new(sk);
    let sig = signer.sign_with_nonce(&message, &Scalar::from_u64(1));
    // R = g, c = H(encode(g) || m), s = 1 + 5 c
    assert_eq!(sig.r_g, Point::generator());
    let c = challenge_scalar(&Point::generator(), &message);
    assert_eq!(sig.s, Scalar::from_u64(1).add(&c.mul(&Scalar::from_u64(5))));
    assert_eq!(
        sig.s.limbs,
        [0x8dba1add0ef1d826, 0xf1bba364c83c3019, 0xac2bcb1f9ffb1feb, 0x02ca8bdf868553bf]
    );
    assert!(Verifier::new(pk).verify(&message, sig));
}

#[test]
fn signer_and_verifier_hold_what_they_were_given() {
    let (sk, pk) = key_pair_of(Scalar::from_u64(9));
    let signer = Signer::new(sk);
    let verifier = Verifier::new(pk);
    assert_eq!(signer.get_generator(), Point::generator());
    assert_eq!(signer.get_secret_key().sk, sk.sk);
    assert_eq!(verifier.get_generator(), Point::generator());
    assert_eq!(verifier.get_public_key().pk, pk.pk);
}

#[test]
fn signatures_verify_for_many_keys_and_messages() {
    let mut rng = StdRng::seed_from_u64(42);
    for len in 0..20usize {
        let message: Vec<u8> = (0..len).map(|i| (3 * i + len) as u8).collect();
        let (sk, pk) = generate_key_pair(&mut rng);
        let sig = Signer::new(sk).sign(&message, &mut rng);
        assert!(Verifier::new(pk).verify(&message, sig));
    }
}

#[test]
fn signature_fails_on_another_message_key_or_commitment() {
    let mut rng = StdRng::seed_from_u64(1);
    let message = vec![0u8, 1u8, 2u8, 3u8];
    let (sk, pk) = generate_key_pair(&mut rng);
    let (_, other_pk) = generate_key_pair(&mut rng);
    let sig = Signer::new(sk).sign(&message, &mut rng);
    let verifier = Verifier::new(pk);
    assert!(verifier.verify(&message, sig));
    assert!(!verifier.verify(&vec![0u8, 1u8, 2u8, 4u8], sig));
    assert!(!verifier.verify(&vec![0u8, 1u8, 2u8], sig));
    assert!(!Verifier::new(other_pk).verify(&message, sig));
    let moved = Signature { r_g: sig.r_g.add(&Point::generator()), s: sig.s };
    assert!(!verifier.verify(&message, moved));
}
