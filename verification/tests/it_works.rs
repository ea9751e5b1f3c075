use bls12_381 as bls;
use coconut::group::ecc_sum;
use coconut::polynomial::lagrange_basis;
use coconut::{
    aggregate_credential, aggregate_keys, blind_sign, compute_commit_hash, elgamal_keygen,
    prepare_blind_sign, prove_credential, ttp_keygen, unblind, verify_credential,
    HashableGenerator, MyRandom, Parameters,
};

fn test_ttp_keygen() {
    let (threshold, number_authorities) = (5, 7);

    let mut rng = rand::thread_rng();

    let mut parameters = Parameters::new(2, &mut rng).unwrap();

    let (secret_keys, verify_keys) =
        ttp_keygen(&mut parameters, threshold, number_authorities).unwrap();

    let verify_key = aggregate_keys(&parameters, &verify_keys);

    let sigs_x: Vec<bls::G1Projective> =
        secret_keys.iter().map(|(x, _)| parameters.g1 * x).collect();
    let l = lagrange_basis(6);
    let sig = ecc_sum(&l.iter().zip(sigs_x.iter()).map(|(l_i, s_i)| s_i * l_i).collect());

    let ppair_1 = bls::pairing(&bls::G1Affine::from(sig), &parameters.g2);
    let ppair_2 = bls::pairing(&parameters.g1, &bls::G2Affine::from(verify_key.0));
    assert_eq!(ppair_1, ppair_2);
}

#[test]
fn it_works() {
    test_ttp_keygen();

    let (threshold, number_authorities) = (5, 7);

    let mut rng = rand::thread_rng();
    let mut parameters = Parameters::new(2, &mut rng).unwrap();

    let (secret_keys, verify_keys) =
        ttp_keygen(&mut parameters, threshold, number_authorities).unwrap();
    let verify_key = aggregate_keys(&parameters, &verify_keys);

    let (d, gamma) = elgamal_keygen(&mut parameters).unwrap();

    let attributes = vec![bls::Scalar::from(110), bls::Scalar::from(4)];

    let lambda = prepare_blind_sign(&mut parameters, &gamma, &attributes).unwrap();

    let blind_signatures: Vec<_> = secret_keys
        .iter()
        .map(|secret_key| blind_sign(&parameters, secret_key, &gamma, &lambda).unwrap())
        .collect();

    // Signatures should be a struct, with an authority ID inside them
    let mut signature_shares: Vec<_> =
        blind_signatures.iter().map(|blind_signature| unblind(&d, blind_signature)).collect();
    let mut indexes: Vec<u64> = (1u64..=signature_shares.len() as u64).collect();

    signature_shares.remove(0);
    indexes.remove(0);
    signature_shares.remove(4);
    indexes.remove(4);

    let commit_hash = compute_commit_hash(&lambda.0).unwrap();
    let signature = (commit_hash, aggregate_credential(&signature_shares, &indexes));

    let proven_credential =
        prove_credential(&mut parameters, &verify_key, &signature, &attributes).unwrap();

    let is_verify = verify_credential(&parameters, &verify_key, &proven_credential);
    assert!(is_verify);

    ///////////

    let g1 = bls::G1Affine::generator();
    let g2 = bls::G2Affine::generator();

    let x = bls::Scalar::new_random(&mut rng).unwrap();

    let result_1 = bls::G1Affine::from(g1 * x);
    let result_2 = bls::G2Affine::from(g2 * x);

    let pair_1 = bls::pairing(&result_1, &g2);
    let pair_2 = bls::pairing(&g1, &result_2);

    let foo = bls::G1Affine::hash_to_point(b"hello world").unwrap();
    assert!(bool::from(foo.is_on_curve()));
    assert!(bool::from(foo.is_torsion_free()));

    assert_eq!(pair_1, pair_2);

    println!("{:?}", x);
    println!("{:?}", result_1);
    println!("{:?}", pair_1);

    println!("Hello, world!");
}
