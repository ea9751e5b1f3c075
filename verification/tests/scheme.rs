use bls12_381::{pairing, G1Affine, G1Projective, G2Affine, G2Projective, Scalar};
use coconut::credential::{
    compute_attribute_commit, credential_from_draws, encrypt_attributes, request_from_secrets,
};
use coconut::elgamal::{elgamal_decrypt, elgamal_encrypt, elgamal_public_key};
use coconut::keys::keys_from_polynomials;
use coconut::proofs::{
    compute_key_commitment, make_signer_proof, make_verify_proof, signer_proof_from_witnesses,
    verify_proof_from_witnesses, verify_signer_proof, verify_verify_proof,
};
use coconut::{
    aggregate_credential, aggregate_keys, blind_sign, compute_commit_hash, elgamal_keygen,
    prepare_blind_sign, prove_credential, try_verify_credential, ttp_keygen, unblind,
    verify_credential, Parameters, RandomSource,
};

/// A source that counts upwards.
struct Counter {
    next: u64,
}

impl RandomSource for Counter {
    fn random_bytes(&mut self) -> [u8; 32] {
        self.next += 1;
        scalar(self.next).to_bytes()
    }
}

fn scalar(x: u64) -> Scalar {
    Scalar::from(x)
}

fn scalars(list: &[u64]) -> Vec<Scalar> {
    list.iter().map(|x| scalar(*x)).collect()
}

fn g1(x: u64) -> G1Projective {
    G1Projective::generator() * scalar(x)
}

fn g2(x: u64) -> G2Projective {
    G2Projective::generator() * scalar(x)
}

#[test]
fn decryption_undoes_encryption() {
    let mut rng = Counter { next: 10 };
    let mut parameters = Parameters::new(1, &mut rng).unwrap();
    let (d, gamma) = elgamal_keygen(&mut parameters).unwrap();
    assert_eq!(d, scalar(11));
    assert_eq!(gamma, g1(11));
    assert_eq!(elgamal_public_key(&parameters, &scalar(9)), g1(9));
    let hash = g1(1000);
    let encrypted = elgamal_encrypt(&parameters, &gamma, &scalar(3), &hash, &scalar(5));
    assert_eq!(encrypted, (g1(5), g1(55 + 3000)));
    assert_eq!(elgamal_decrypt(&d, &encrypted), g1(3000));
    assert_eq!(unblind(&d, &encrypted), g1(3000));
    assert_ne!(unblind(&scalar(12), &encrypted), g1(3000));
}

#[test]
fn keys_are_values_of_polynomials() {
    let mut rng = Counter { next: 0 };
    let parameters = Parameters::new(2, &mut rng).unwrap();
    let v_poly = scalars(&[1, 2]);
    let w_poly = vec![scalars(&[3, 4]), scalars(&[5, 6])];
    let (secret_keys, verify_keys) = keys_from_polynomials(&parameters, &v_poly, &w_poly, 3);
    assert_eq!(
        secret_keys,
        vec![
            (scalar(3), scalars(&[7, 11])),
            (scalar(5), scalars(&[11, 17])),
            (scalar(7), scalars(&[15, 23])),
        ]
    );
    assert_eq!(
        verify_keys,
        vec![
            (g2(3), vec![g2(7), g2(11)]),
            (g2(5), vec![g2(11), g2(17)]),
            (g2(7), vec![g2(15), g2(23)]),
        ]
    );
    assert_eq!(aggregate_keys(&parameters, &verify_keys), (g2(1), vec![g2(3), g2(5)]));
    assert_eq!(
        aggregate_keys(&parameters, &verify_keys[0..2].to_vec()),
        (g2(1), vec![g2(3), g2(5)])
    );
    // One key is fewer than the threshold.
    assert_eq!(aggregate_keys(&parameters, &verify_keys[0..1].to_vec()), verify_keys[0]);
}

#[test]
fn keygen_draws_the_coefficients_in_order() {
    let mut rng = Counter { next: 0 };
    let mut parameters = Parameters::new(2, &mut rng).unwrap();
    let drawn = ttp_keygen(&mut parameters, 2, 3).unwrap();
    assert_eq!(parameters.rng.next, 6);
    let v_poly = scalars(&[1, 2]);
    let w_poly = vec![scalars(&[3, 4]), scalars(&[5, 6])];
    assert_eq!(drawn, keys_from_polynomials(&parameters, &v_poly, &w_poly, 3));
}

#[test]
fn signer_proof_stands_and_breaks() {
    let mut rng = Counter { next: 100 };
    let mut parameters = Parameters::new(2, &mut rng).unwrap();
    let gamma = g1(8);
    let attributes = scalars(&[110, 4]);
    let keys = scalars(&[21, 22]);
    let blind = scalar(31);
    let commit = compute_attribute_commit(&parameters, &attributes, &blind);
    assert_eq!(
        commit,
        g1(31) + parameters.hs[0] * scalar(110) + parameters.hs[1] * scalar(4)
    );
    let hash = compute_commit_hash(&commit).unwrap();
    let encrypted = encrypt_attributes(&parameters, &gamma, &hash, &attributes, &keys);
    let proof = make_signer_proof(
        &mut parameters,
        &gamma,
        &encrypted,
        &commit,
        &hash,
        &keys,
        &attributes,
        &blind,
    )
    .unwrap();
    assert_eq!(
        Some(proof.clone()),
        signer_proof_from_witnesses(
            &parameters,
            &gamma,
            &commit,
            &hash,
            &keys,
            &attributes,
            &blind,
            &scalar(101),
            &scalars(&[102, 103]),
            &scalars(&[104, 105]),
        )
    );
    let (c, rb, rk, ra) = proof.clone();
    assert_eq!(rb, scalar(101) - c * blind);
    assert_eq!(rk, vec![scalar(102) - c * keys[0], scalar(103) - c * keys[1]]);
    assert_eq!(ra, vec![scalar(104) - c * attributes[0], scalar(105) - c * attributes[1]]);
    assert!(verify_signer_proof(&parameters, &gamma, &encrypted, &commit, &hash, &proof));

    let one = Scalar::one();
    let broken = vec![
        (c + one, rb, rk.clone(), ra.clone()),
        (c, rb + one, rk.clone(), ra.clone()),
        (c, rb, vec![rk[1], rk[0]], ra.clone()),
        (c, rb, rk.clone(), vec![ra[0] + one, ra[1]]),
        (c, rb, rk.clone(), vec![ra[0]]),
    ];
    for bad in broken.iter() {
        assert!(!verify_signer_proof(&parameters, &gamma, &encrypted, &commit, &hash, bad));
    }
    let other = vec![encrypted[0], (encrypted[1].0, encrypted[1].1 + g1(1))];
    assert!(!verify_signer_proof(&parameters, &gamma, &other, &commit, &hash, &proof));
    assert!(!verify_signer_proof(&parameters, &g1(9), &encrypted, &commit, &hash, &proof));
    assert!(!verify_signer_proof(&parameters, &gamma, &encrypted, &(commit + g1(1)), &hash, &proof));
}

#[test]
fn verify_proof_stands_and_breaks() {
    let mut rng = Counter { next: 40 };
    let mut parameters = Parameters::new(2, &mut rng).unwrap();
    let key = (g2(3), vec![g2(7), g2(11)]);
    let hash = g1(99);
    let attributes = scalars(&[110, 4]);
    let blind = scalar(6);
    let kappa = compute_key_commitment(&parameters, &key, &blind, &attributes);
    assert_eq!(kappa, g2(6 + 3 + 770 + 44));
    let v = hash * blind;
    let proof = make_verify_proof(&mut parameters, &key, &hash, &attributes, &blind).unwrap();
    assert_eq!(
        Some(proof.clone()),
        verify_proof_from_witnesses(
            &parameters,
            &key,
            &hash,
            &attributes,
            &blind,
            &scalars(&[41, 42]),
            &scalar(43),
        )
    );
    let (c, rk, rb) = proof.clone();
    assert_eq!(rk, vec![scalar(41) - c * attributes[0], scalar(42) - c * attributes[1]]);
    assert_eq!(rb, scalar(43) - c * blind);
    assert!(verify_verify_proof(&parameters, &key, &hash, &kappa, &v, &proof));
    let one = Scalar::one();
    assert!(!verify_verify_proof(&parameters, &key, &hash, &kappa, &v, &(c + one, rk.clone(), rb)));
    assert!(!verify_verify_proof(&parameters, &key, &hash, &kappa, &v, &(c, rk.clone(), rb + one)));
    assert!(!verify_verify_proof(&parameters, &key, &hash, &kappa, &v, &(c, vec![rk[1], rk[0]], rb)));
    assert!(!verify_verify_proof(&parameters, &key, &hash, &(kappa + g2(1)), &v, &proof));
    assert!(!verify_verify_proof(&parameters, &key, &hash, &kappa, &(v + g1(1)), &proof));
    assert!(!verify_verify_proof(&parameters, &key, &g1(98), &kappa, &v, &proof));
}

#[test]
fn request_draws_in_order() {
    let mut rng = Counter { next: 0 };
    let mut parameters = Parameters::new(2, &mut rng).unwrap();
    let gamma = g1(8);
    let attributes = scalars(&[110, 4]);
    let lambda = prepare_blind_sign(&mut parameters, &gamma, &attributes).unwrap();
    assert_eq!(parameters.rng.next, 8);
    let expected = request_from_secrets(
        &parameters,
        &gamma,
        &attributes,
        &scalar(1),
        &scalars(&[2, 3]),
        &scalar(4),
        &scalars(&[5, 6]),
        &scalars(&[7, 8]),
    );
    assert_eq!(Some(lambda.clone()), expected);
    let hash = compute_commit_hash(&lambda.0).unwrap();
    assert_eq!(
        lambda.1,
        vec![(g1(2), g1(16) + hash * scalar(110)), (g1(3), g1(24) + hash * scalar(4))]
    );
}

#[test]
fn signatures_decrypt_to_the_signed_value() {
    let mut rng = Counter { next: 0 };
    let mut parameters = Parameters::new(2, &mut rng).unwrap();
    let d = scalar(50);
    let gamma = g1(50);
    let attributes = scalars(&[110, 4]);
    let lambda = prepare_blind_sign(&mut parameters, &gamma, &attributes).unwrap();
    let hash = compute_commit_hash(&lambda.0).unwrap();
    let key = (scalar(9), scalars(&[2, 3]));
    let signed = blind_sign(&parameters, &key, &gamma, &lambda).unwrap();
    assert_eq!(signed.0, g1(2 * 2 + 3 * 3));
    assert_eq!(unblind(&d, &signed), hash * scalar(9 + 2 * 110 + 3 * 4));

    // A key for one attribute signs the first only.
    let short = (scalar(9), scalars(&[2]));
    let signed = blind_sign(&parameters, &short, &gamma, &lambda).unwrap();
    assert_eq!(unblind(&d, &signed), hash * scalar(9 + 2 * 110));
}

#[test]
fn bad_requests_are_refused() {
    let mut rng = Counter { next: 0 };
    let mut parameters = Parameters::new(2, &mut rng).unwrap();
    let gamma = g1(50);
    let attributes = scalars(&[110, 4]);
    let lambda = prepare_blind_sign(&mut parameters, &gamma, &attributes).unwrap();
    let key = (scalar(9), scalars(&[2, 3]));
    assert!(blind_sign(&parameters, &key, &gamma, &lambda).is_ok());
    assert_eq!(blind_sign(&parameters, &key, &g1(51), &lambda), Err("verify proof failed"));
    let mut other = lambda.clone();
    other.0 = lambda.0 + g1(1);
    assert_eq!(blind_sign(&parameters, &key, &gamma, &other), Err("verify proof failed"));
    let mut other = lambda.clone();
    other.1[1].1 = lambda.1[1].1 + g1(1);
    assert_eq!(blind_sign(&parameters, &key, &gamma, &other), Err("verify proof failed"));
    let mut other = lambda.clone();
    other.2 .0 = lambda.2 .0 + Scalar::one();
    assert_eq!(blind_sign(&parameters, &key, &gamma, &other), Err("verify proof failed"));
}

#[test]
fn any_enough_authorities_sign_together() {
    let mut rng = Counter { next: 0 };
    let parameters = Parameters::new(2, &mut rng).unwrap();
    let v_poly = scalars(&[1, 2, 3]);
    let w_poly = vec![scalars(&[3, 4, 5]), scalars(&[5, 6, 7])];
    let (secret_keys, _) = keys_from_polynomials(&parameters, &v_poly, &w_poly, 5);
    let hash = g1(12);
    let share = |i: usize| {
        let (x, y) = &secret_keys[i];
        hash * (x + y[0] * scalar(110) + y[1] * scalar(4))
    };
    let whole = hash * scalar(1 + 3 * 110 + 5 * 4);
    assert_eq!(aggregate_credential(&vec![share(0), share(1), share(2)], &vec![1, 2, 3]), whole);
    assert_eq!(aggregate_credential(&vec![share(4), share(1), share(3)], &vec![5, 2, 4]), whole);
    assert_eq!(
        aggregate_credential(&vec![share(4), share(1), share(3), share(0)], &vec![5, 2, 4, 1]),
        whole
    );
    assert_ne!(aggregate_credential(&vec![share(4), share(1)], &vec![5, 2]), whole);
    assert_eq!(aggregate_credential(&vec![], &vec![]), G1Projective::identity());
}

#[test]
fn shown_credential_draws_in_order() {
    let mut rng = Counter { next: 0 };
    let mut parameters = Parameters::new(2, &mut rng).unwrap();
    let key = (g2(1), vec![g2(3), g2(5)]);
    let hash = g1(12);
    let attributes = scalars(&[110, 4]);
    let signature = (hash, hash * scalar(1 + 3 * 110 + 5 * 4));
    let shown = prove_credential(&mut parameters, &key, &signature, &attributes).unwrap();
    assert_eq!(parameters.rng.next, 5);
    let expected = credential_from_draws(
        &parameters,
        &key,
        &signature,
        &attributes,
        &scalar(1),
        &scalar(2),
        &scalars(&[3, 4]),
        &scalar(5),
    );
    assert_eq!(Some(shown.clone()), expected);
    assert_eq!(shown.0, g2(2 + 1 + 330 + 20));
    assert_eq!(shown.1, g1(24));
    assert!(verify_credential(&parameters, &key, &shown));
    assert_eq!(try_verify_credential(&parameters, &key, &shown), Some(true));
}

#[test]
fn other_signatures_are_refused() {
    let mut rng = Counter { next: 6 };
    let mut parameters = Parameters::new(2, &mut rng).unwrap();
    let key = (g2(1), vec![g2(3), g2(5)]);
    let hash = g1(12);
    let value = 1 + 3 * 110 + 5 * 4;
    let good = (hash, hash * scalar(value));

    // A signature on other attributes.
    let shown = prove_credential(&mut parameters, &key, &good, &scalars(&[111, 4])).unwrap();
    assert!(!verify_credential(&parameters, &key, &shown));
    assert_eq!(try_verify_credential(&parameters, &key, &shown), Some(false));

    // Something else in its place.
    let bad = (hash, hash * scalar(value + 1));
    let shown = prove_credential(&mut parameters, &key, &bad, &scalars(&[110, 4])).unwrap();
    assert!(!verify_credential(&parameters, &key, &shown));

    // Another key.
    let shown = prove_credential(&mut parameters, &key, &good, &scalars(&[110, 4])).unwrap();
    assert!(verify_credential(&parameters, &key, &shown));
    let other = (g2(2), vec![g2(3), g2(5)]);
    assert!(!verify_credential(&parameters, &other, &shown));

    // A proof that does not stand.
    let mut broken = shown.clone();
    broken.3 .2 = shown.3 .2 + Scalar::one();
    assert!(!verify_credential(&parameters, &key, &broken));
    assert_eq!(try_verify_credential(&parameters, &key, &broken), Some(false));
}

#[test]
fn a_blinding_by_zero_hides_the_signature() {
    let mut rng = Counter { next: 6 };
    let parameters = Parameters::new(2, &mut rng).unwrap();
    let key = (g2(1), vec![g2(3), g2(5)]);
    let hash = g1(12);
    let attributes = scalars(&[110, 4]);
    let wrong = (hash, hash * scalar(7));
    let show = |blind_prime: Scalar| {
        credential_from_draws(
            &parameters,
            &key,
            &wrong,
            &attributes,
            &blind_prime,
            &scalar(2),
            &scalars(&[3, 4]),
            &scalar(5),
        )
        .unwrap()
    };
    assert!(verify_credential(&parameters, &key, &show(Scalar::zero())));
    assert!(!verify_credential(&parameters, &key, &show(Scalar::one())));
    assert!(!verify_credential(&parameters, &key, &show(-Scalar::one())));
}

#[test]
fn the_lent_source_has_moved_on() {
    let mut rng = Counter { next: 0 };
    let mut parameters = Parameters::new(2, &mut rng).unwrap();
    elgamal_keygen(&mut parameters).unwrap();
    ttp_keygen(&mut parameters, 2, 3).unwrap();
    drop(parameters);
    assert_eq!(rng.next, 7);
}

/// A point of the curve of the first group outside the group.
fn outside_g1() -> G1Affine {
    for i in 0..=255u8 {
        let mut bytes = [0u8; 48];
        bytes[0] = 0x80;
        bytes[47] = i;
        let found: Option<G1Affine> = Option::from(G1Affine::from_compressed_unchecked(&bytes));
        if let Some(p) = found {
            if !bool::from(p.is_torsion_free()) {
                return p;
            }
        }
    }
    unreachable!()
}

/// A point of the curve of the second group outside the group.
fn outside_g2() -> G2Affine {
    for i in 0..=255u8 {
        let mut bytes = [0u8; 96];
        bytes[0] = 0x80;
        bytes[95] = i;
        let found: Option<G2Affine> = Option::from(G2Affine::from_compressed_unchecked(&bytes));
        if let Some(p) = found {
            if !bool::from(p.is_torsion_free()) {
                return p;
            }
        }
    }
    unreachable!()
}

#[test]
fn points_outside_the_groups_get_no_answer() {
    let mut rng = Counter { next: 0 };
    let parameters = Parameters::new(1, &mut rng).unwrap();
    let zero = Scalar::zero();

    // With the blinding factor zero the proof stands for any point.
    let stray = G1Projective::from(outside_g1());
    let key = (g2(1), vec![g2(3)]);
    let shown = credential_from_draws(
        &parameters,
        &key,
        &(stray, stray),
        &scalars(&[5]),
        &scalar(1),
        &zero,
        &scalars(&[3]),
        &scalar(4),
    )
    .unwrap();
    assert_eq!(try_verify_credential(&parameters, &key, &shown), None);
    let mut broken = shown.clone();
    broken.3 .2 = shown.3 .2 + Scalar::one();
    assert_eq!(try_verify_credential(&parameters, &key, &broken), Some(false));

    // With the attribute zero the proof stands for any key of the attribute.
    let key = (g2(1), vec![G2Projective::from(outside_g2())]);
    let shown = credential_from_draws(
        &parameters,
        &key,
        &(g1(7), g1(7)),
        &vec![zero],
        &scalar(1),
        &scalar(2),
        &scalars(&[3]),
        &scalar(4),
    )
    .unwrap();
    assert_eq!(try_verify_credential(&parameters, &key, &shown), Some(true));
    // With the attribute one and the largest witness the responses do not wrap around.
    let away = credential_from_draws(
        &parameters,
        &key,
        &(g1(7), g1(7)),
        &scalars(&[1]),
        &scalar(1),
        &scalar(2),
        &vec![zero - Scalar::one()],
        &scalar(4),
    )
    .unwrap();
    assert!(verify_verify_proof(&parameters, &key, &away.2 .0, &away.0, &away.1, &away.3));
    assert_eq!(try_verify_credential(&parameters, &key, &away), None);
    let mut moved = shown.clone();
    moved.0 = G2Projective::from(outside_g2());
    assert_eq!(try_verify_credential(&parameters, &key, &moved), Some(false));
}

#[test]
fn a_factor_moves_through_the_pairing() {
    let (p, q) = (G1Affine::from(g1(6)), G2Affine::from(g2(35)));
    assert_eq!(
        pairing(&G1Affine::from(g1(6 * 11)), &q),
        pairing(&p, &G2Affine::from(g2(35 * 11)))
    );
    assert_ne!(pairing(&p, &q), pairing(&p, &G2Affine::from(g2(36))));
}
