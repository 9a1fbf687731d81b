use fde::field::Scalar;
use fde::fse::protocol::{commit_nonces, FSE};
use fde::group::Point;
use fde::schnorr_signature::key::{key_pair_of, PublicKey, SecretKey};
use fde::schnorr_signature::signature::Signature;
use fde::schnorr_signature::util::challenge_scalar;
use fde::schnorr_signature::verifying::Verifier;
use rand::rngs::StdRng;
use rand::{thread_rng, SeedableRng};

fn two_messages() -> Vec<Vec<u8>> {
    let mut temp = Vec::new();
    temp.push([0u8, 1u8, 2u8, 3u8].to_vec());
    temp.push([0u8, 1u8, 2u8, 3u8].to_vec());
    temp
}

#[test]
fn test() {
    let mut rng = StdRng::from_rng(thread_rng()).unwrap();
    let message = two_messages();
    let (sk, pk): (SecretKey, PublicKey) = FSE::gen_key(&mut rng);

    let (vec_alpha, r_g, g_k, k) = FSE::sign(&sk, &message, &mut rng);
    assert!(FSE::verify(&pk, &message, &vec_alpha, &r_g, &g_k));

    let signatures = FSE::recover(&vec_alpha, &r_g, k);

    for (i, sig) in signatures.iter().enumerate() {
        let verifier = Verifier::new(pk.clone());
        assert!(verifier.verify(&message[i], *sig));
    }
}

#[test]
fn batch_of_two_is_accepted_and_a_bumped_value_is_not() {
    let mut rng = StdRng::seed_from_u64(0);
    let message = two_messages();
    let (sk, pk) = FSE::gen_key(&mut rng);
    let (mut vec_alpha, r_g, g_k, k) = FSE::sign(&sk, &message, &mut rng);
    assert_eq!(vec_alpha.len(), 2);
    assert_eq!(r_g.len(), 2);
    assert!(FSE::verify(&pk, &message, &vec_alpha, &r_g, &g_k));

    let signatures = FSE::recover(&vec_alpha, &r_g, k);
    assert_eq!(signatures.len(), 2);
    let verifier = Verifier::new(pk);
    assert!(verifier.verify(&message[0], signatures[0]));
    assert!(verifier.verify(&message[1], signatures[1]));

    vec_alpha[0] = vec_alpha[0].add(&Scalar::from_u64(1));
    assert!(!FSE::verify(&pk, &message, &vec_alpha, &r_g, &g_k));
}

#[test]
fn tampering_with_any_part_of_the_transcript_is_detected() {
    let mut rng = StdRng::seed_from_u64(2);
    let message = vec![vec![1u8], vec![2u8, 2u8], vec![3u8, 3u8, 3u8]];
    let (sk, pk) = FSE::gen_key(&mut rng);
    let (vec_alpha, r_g, g_k, _) = FSE::sign(&sk, &message, &mut rng);
    assert!(FSE::verify(&pk, &message, &vec_alpha, &r_g, &g_k));
    for i in 0..3 {
        let mut alpha = vec_alpha.clone();
        let mut flipped = alpha[i].limbs;
        flipped[0] ^= 1;
        alpha[i] = Scalar { limbs: flipped };
        assert!(!FSE::verify(&pk, &message, &alpha, &r_g, &g_k));
        let mut commitments = r_g.clone();
        commitments[i] = commitments[i].add(&Point::generator());
        assert!(!FSE::verify(&pk, &message, &vec_alpha, &commitments, &g_k));
        let mut messages = message.clone();
        messages[i].push(0);
        assert!(!FSE::verify(&pk, &messages, &vec_alpha, &r_g, &g_k));
    }
    assert!(!FSE::verify(&pk, &message, &vec_alpha, &r_g, &g_k.double()));
    assert!(!FSE::verify(&pk, &message, &vec_alpha, &r_g, &g_k.add(&Point::generator())));
}

#[test]
fn without_the_key_the_released_values_do_not_sign() {
    let mut rng = StdRng::seed_from_u64(4);
    let message = two_messages();
    let (sk, pk) = FSE::gen_key(&mut rng);
    let (vec_alpha, r_g, g_k, k) = FSE::sign(&sk, &message, &mut rng);
    assert!(FSE::verify(&pk, &message, &vec_alpha, &r_g, &g_k));
    let verifier = Verifier::new(pk);
    for i in 0..2 {
        let guess = Signature { r_g: r_g[i], s: Scalar::from_u64(2).mul(&vec_alpha[i]) };
        assert!(!verifier.verify(&message[i], guess));
        let half = Signature { r_g: r_g[i], s: vec_alpha[i] };
        assert!(!verifier.verify(&message[i], half));
    }
    let wrong_key = FSE::recover(&vec_alpha, &r_g, k.add(&Scalar::from_u64(1)));
    assert!(!verifier.verify(&message[0], wrong_key[0]));
}

#[test]
fn the_empty_batch_is_accepted() {
    let mut rng = StdRng::seed_from_u64(6);
    let message: Vec<Vec<u8>> = Vec::new();
    let (sk, pk) = FSE::gen_key(&mut rng);
    let (vec_alpha, r_g, g_k, k) = FSE::sign(&sk, &message, &mut rng);
    assert!(vec_alpha.is_empty());
    assert!(r_g.is_empty());
    assert_eq!(g_k, Point::generator().mul(&k));
    assert!(FSE::verify(&pk, &message, &vec_alpha, &r_g, &g_k));
    assert!(FSE::verify(&pk, &message, &vec_alpha, &r_g, &Point::generator()));
    assert!(FSE::recover(&vec_alpha, &r_g, k).is_empty());
}

#[test]
fn batch_with_given_nonces_and_mask() {
    let message = vec![vec![0u8, 1u8, 2u8, 3u8], vec![4u8]];
    let (sk, pk) = key_pair_of(Scalar::from_u64(5));
    let r = vec![Scalar::from_u64(7), Scalar::from_u64(8)];
    let k = Scalar::from_u64(100);
    let (vec_alpha, r_g, g_k, k_out) = FSE::sign_with(&sk, &message, &r, k);
    let g = Point::generator();
    assert_eq!(k_out, k);
    assert_eq!(g_k, g.mul(&k));
    assert_eq!(r_g, vec![g.mul(&r[0]), g.mul(&r[1])]);
    assert_eq!(r_g, commit_nonces(&g, &r));
    for i in 0..2 {
        // s = r + c sk, alpha = (s + k) / 2
        let c = challenge_scalar(&r_g[i], &message[i]);
        let s = r[i].add(&c.mul(&sk.sk));
        assert_eq!(vec_alpha[i], s.add(&k).div(&Scalar::from_u64(2)));
        assert_eq!(vec_alpha[i], FSE::share(&sk, &message[i], &r[i], &r_g[i], &k, &Scalar::half()));
        assert_eq!(vec_alpha[i].add(&vec_alpha[i]), s.add(&k));
        assert!(FSE::check_share(&pk, &message[i], &vec_alpha[i], &r_g[i], &g_k));
        assert!(!FSE::check_share(&pk, &message[1 - i], &vec_alpha[i], &r_g[i], &g_k));
    }
    assert!(FSE::verify(&pk, &message, &vec_alpha, &r_g, &g_k));
}

#[test]
fn the_released_key_opens_the_schnorr_responses() {
    let message = vec![vec![0u8, 1u8, 2u8, 3u8], vec![4u8], vec![]];
    let (sk, pk) = key_pair_of(Scalar::from_u64(123456789));
    let r = vec![Scalar::from_u64(7), Scalar::from_u64(8), Scalar::from_u64(9)];
    let k = Scalar::from_u64(0).sub(&Scalar::from_u64(3));
    let (vec_alpha, r_g, _, _) = FSE::sign_with(&sk, &message, &r, k);
    let signatures = FSE::recover(&vec_alpha, &r_g, k);
    let signer = fde::schnorr_signature::signer::Signer::new(sk);
    let verifier = Verifier::new(pk);
    for i in 0..3 {
        let c = challenge_scalar(&r_g[i], &message[i]);
        assert_eq!(signatures[i].r_g, r_g[i]);
        assert_eq!(signatures[i].s, r[i].add(&c.mul(&sk.sk)));
        assert_eq!(signatures[i].s, Scalar::from_u64(2).mul(&vec_alpha[i]).sub(&k));
        assert_eq!(signatures[i].s, signer.sign_with_nonce(&message[i], &r[i]).s);
        assert!(verifier.verify(&message[i], signatures[i]));
    }
}

#[test]
fn batches_of_many_sizes_are_accepted_and_open() {
    let mut rng = StdRng::seed_from_u64(8);
    for n in [1usize, 3, 8] {
        let message: Vec<Vec<u8>> = (0..n).map(|i| vec![i as u8; i]).collect();
        let (sk, pk) = FSE::gen_key(&mut rng);
        let (vec_alpha, r_g, g_k, k) = FSE::sign(&sk, &message, &mut rng);
        assert!(FSE::verify(&pk, &message, &vec_alpha, &r_g, &g_k));
        let signatures = FSE::recover(&vec_alpha, &r_g, k);
        let verifier = Verifier::new(pk);
        for i in 0..n {
            assert!(verifier.verify(&message[i], signatures[i]));
        }
    }
}
