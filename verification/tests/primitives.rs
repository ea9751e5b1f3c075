use bls12_381::{G1Affine, G1Projective, G2Affine, G2Projective, Scalar};
use coconut::group::{combination, ec_sum, ecc_sum, multiples};
use coconut::hashing::{clone_into_array, compute_challenge, generator_label, sha256_hash};
use coconut::polynomial::{compute_polynomial, lagrange_basis, lagrange_basis2, lagrange_weight};
use coconut::random::scalar_from_random;
use coconut::{compute_commit_hash, GeneratorPoint, HashableGenerator, MyRandom, Parameters, RandomSource};
use sha2::{Digest, Sha256, Sha512};

/// A source that hands out what it was given, and starts again at the end.
struct Script {
    draws: Vec<[u8; 32]>,
    next: usize,
}

impl RandomSource for Script {
    fn random_bytes(&mut self) -> [u8; 32] {
        let bytes = self.draws[self.next % self.draws.len()];
        self.next += 1;
        bytes
    }
}

fn scalar(x: u64) -> Scalar {
    Scalar::from(x)
}

fn bytes_of(x: u64) -> [u8; 32] {
    scalar(x).to_bytes()
}

/// The little-endian digits of the order of the groups.
fn order_bytes() -> [u8; 32] {
    let mut bytes = (Scalar::zero() - Scalar::one()).to_bytes();
    bytes[0] += 1;
    bytes
}

fn g1(x: u64) -> G1Projective {
    G1Projective::generator() * scalar(x)
}

fn g2(x: u64) -> G2Projective {
    G2Projective::generator() * scalar(x)
}

#[test]
fn array_of_clones() {
    let a: [u8; 3] = clone_into_array(&[1u8, 2, 3]);
    assert_eq!(a, [1, 2, 3]);
    let b: [String; 2] = clone_into_array(&["a".to_string(), "b".to_string()]);
    assert_eq!(b, ["a".to_string(), "b".to_string()]);
    let c: [u64; 0] = clone_into_array(&[]);
    assert_eq!(c, []);
}

#[test]
fn digest_prefix() {
    let expected: [u8; 48] = [
        0xdd, 0xaf, 0x35, 0xa1, 0x93, 0x61, 0x7a, 0xba, 0xcc, 0x41, 0x73, 0x49, 0xae, 0x20, 0x41,
        0x31, 0x12, 0xe6, 0xfa, 0x4e, 0x89, 0xa9, 0x7e, 0xa2, 0x0a, 0x9e, 0xee, 0xe6, 0x4b, 0x55,
        0xd3, 0x9a, 0x21, 0x92, 0x99, 0x2a, 0x27, 0x4f, 0xc1, 0xa8, 0x36, 0xba, 0x3c, 0x23, 0xa3,
        0xfe, 0xeb, 0xbd,
    ];
    assert_eq!(sha256_hash(b"abc")[..], expected[..]);
}

#[test]
fn labels() {
    assert_eq!(generator_label(0), b"h0".to_vec());
    assert_eq!(generator_label(9), b"h9".to_vec());
    assert_eq!(generator_label(10), b"h10".to_vec());
    assert_eq!(generator_label(1907), b"h1907".to_vec());
    assert_eq!(generator_label(usize::MAX), format!("h{}", usize::MAX).into_bytes());
}

fn expected_hash(message: &[u8]) -> (u32, G1Affine) {
    for i in 0u32.. {
        let mut data = message.to_vec();
        data.extend_from_slice(&i.to_le_bytes());
        let digest = Sha512::digest(&data);
        let mut bytes = [0u8; 48];
        bytes.copy_from_slice(&digest[0..48]);
        let found: Option<G1Affine> = Option::from(G1Affine::from_compressed_unchecked(&bytes));
        if let Some(p) = found {
            return (i, G1Affine::from(G1Projective::from(p).clear_cofactor()));
        }
    }
    unreachable!()
}

#[test]
fn hash_to_point_is_the_first_candidate() {
    let mut later = 0;
    for i in 0..20u8 {
        let message = [b'm', i];
        let (counter, expected) = expected_hash(&message);
        if counter > 0 {
            later += 1;
        }
        let point = G1Affine::hash_to_point(&message).unwrap();
        assert_eq!(point, expected);
        assert!(bool::from(point.is_torsion_free()));
        assert_eq!(G1Projective::hash_to_point(&message).unwrap(), G1Projective::from(expected));
    }
    assert!(later > 0);
    assert_ne!(G1Affine::hash_to_point(b"").unwrap(), G1Affine::hash_to_point(b"h").unwrap());
}

#[test]
fn commit_hash_hashes_the_encoding() {
    let commit = g1(77);
    let encoding = G1Affine::from(commit).to_compressed();
    let expected = expected_hash(&encoding).1;
    assert_eq!(compute_commit_hash(&commit).unwrap(), G1Projective::from(expected));
}

fn expected_challenge(points_g1: &[G1Projective], points_g2: &[G2Projective]) -> Scalar {
    for i in 0u32.. {
        let mut hasher = Sha256::new();
        hasher.input(&i.to_le_bytes());
        for p in points_g1 {
            let data = G1Affine::from(p).to_compressed();
            hasher.input(&data[0..32]);
            hasher.input(&data[32..]);
        }
        for p in points_g2 {
            let data = G2Affine::from(p).to_compressed();
            hasher.input(&data[0..32]);
            hasher.input(&data[32..64]);
            hasher.input(&data[64..]);
        }
        let mut bytes = [0u8; 32];
        bytes.copy_from_slice(hasher.result().as_slice());
        let found: Option<Scalar> = Option::from(Scalar::from_bytes(&bytes));
        if let Some(c) = found {
            return c;
        }
    }
    unreachable!()
}

#[test]
fn challenge_hashes_all_points() {
    for n in 1..12u64 {
        let points_g1: Vec<_> = (0..n).map(|i| g1(i * i)).collect();
        let points_g2: Vec<_> = (0..n / 2).map(|i| g2(i + 5)).collect();
        assert_eq!(
            compute_challenge(&points_g1, &points_g2).unwrap(),
            expected_challenge(&points_g1, &points_g2)
        );
    }
    assert_eq!(compute_challenge(&vec![], &vec![]).unwrap(), expected_challenge(&[], &[]));
    assert_ne!(
        compute_challenge(&vec![g1(1), g1(2)], &vec![]).unwrap(),
        compute_challenge(&vec![g1(2), g1(1)], &vec![]).unwrap()
    );
}

#[test]
fn polynomial_values() {
    let coefficients = vec![scalar(3), scalar(5), scalar(7)];
    assert_eq!(compute_polynomial(&coefficients, 2), scalar(41));
    assert_eq!(compute_polynomial(&coefficients, 0), scalar(3));
    assert_eq!(compute_polynomial(&vec![], 9), Scalar::zero());
    let top = scalar(u64::MAX);
    assert_eq!(
        compute_polynomial(&vec![scalar(1), scalar(0), scalar(2)], u64::MAX),
        scalar(1) + scalar(2) * top * top
    );
}

#[test]
fn first_weights() {
    assert_eq!(lagrange_basis(0), vec![]);
    assert_eq!(lagrange_basis(1), vec![scalar(1)]);
    assert_eq!(lagrange_basis(3), vec![scalar(3), -scalar(3), scalar(1)]);
}

#[test]
fn chosen_weights() {
    let weights = lagrange_basis2(&vec![2, 5]);
    assert_eq!(weights[0] * scalar(3), scalar(5));
    assert_eq!(weights[1] * scalar(3), -scalar(2));
    assert_eq!(lagrange_basis2(&vec![1, 2, 3]), lagrange_basis(3));
    // An index that occurs twice is passed over in its own weight.
    assert_eq!(lagrange_basis2(&vec![4, 4]), vec![scalar(1), scalar(1)]);
    // The index zero takes all the weight.
    assert_eq!(lagrange_basis2(&vec![0, 7]), vec![scalar(1), scalar(0)]);
    assert_eq!(lagrange_weight(&vec![3, u64::MAX], 3) * (scalar(u64::MAX) - scalar(3)), scalar(u64::MAX));
}

#[test]
fn interpolation_recovers_the_constant_term() {
    let coefficients = vec![scalar(42), scalar(17), -scalar(5), scalar(9)];
    let indexes = vec![9, 2, u64::MAX, 14, 3];
    let weights = lagrange_basis2(&indexes);
    let sum = indexes
        .iter()
        .zip(weights.iter())
        .fold(Scalar::zero(), |sum, (i, w)| sum + compute_polynomial(&coefficients, *i) * w);
    assert_eq!(sum, scalar(42));
}

#[test]
fn sums_of_points() {
    assert_eq!(ecc_sum(&vec![g1(1), g1(2), g1(39)]), g1(42));
    assert_eq!(ecc_sum::<G1Projective>(&vec![]), G1Projective::identity());
    assert_eq!(ec_sum(&vec![g2(1), g2(2), g2(39)]), g2(42));
    assert_eq!(ec_sum(&vec![]), G2Projective::identity());
    assert_eq!(GeneratorPoint::add(&g1(3), &g1(4)), g1(7));
    assert_eq!(GeneratorPoint::add(&g2(3), &g2(4)), g2(7));
    let identity: G1Projective = GeneratorPoint::get_identity();
    assert_eq!(identity, G1Projective::identity());
    let identity: G2Projective = GeneratorPoint::get_identity();
    assert_eq!(identity, G2Projective::identity());
}

#[test]
fn combinations_stop_with_the_shorter_list() {
    assert_eq!(combination(&vec![g1(1), g1(2)], &vec![scalar(10), scalar(20), scalar(30)]), g1(50));
    assert_eq!(combination(&vec![g2(1), g2(2), g2(3)], &vec![scalar(10)]), g2(10));
    assert_eq!(multiples(&vec![g1(4), g1(5)], &vec![scalar(2), scalar(3)]), vec![g1(8), g1(15)]);
}

#[test]
fn parameters_for_attributes() {
    let mut rng = Script { draws: vec![bytes_of(1)], next: 0 };
    let parameters = Parameters::new(3, &mut rng).unwrap();
    assert_eq!(parameters.g1, G1Affine::generator());
    assert_eq!(parameters.g2, G2Affine::generator());
    assert_eq!(
        parameters.hs,
        vec![expected_hash(b"h0").1, expected_hash(b"h1").1, expected_hash(b"h2").1]
    );
    let mut rng = Script { draws: vec![bytes_of(1)], next: 0 };
    assert_eq!(Parameters::new(0, &mut rng).unwrap().hs, vec![]);
}

#[test]
fn bytes_from_the_order_on_are_passed_over() {
    assert_eq!(scalar_from_random(&bytes_of(300)).unwrap(), scalar(300));
    assert_eq!(
        scalar_from_random(&(Scalar::zero() - Scalar::one()).to_bytes()).unwrap(),
        -Scalar::one()
    );
    assert!(scalar_from_random(&order_bytes()).is_none());
    assert!(scalar_from_random(&[0xff; 32]).is_none());

    let mut rng = Script { draws: vec![[0xff; 32], order_bytes(), bytes_of(6), bytes_of(7)], next: 0 };
    assert_eq!(Scalar::new_random(&mut rng).unwrap(), scalar(6));
    assert_eq!(rng.next, 3);
    assert_eq!(Scalar::new_random(&mut rng).unwrap(), scalar(7));
}

#[test]
fn parameters_draw_from_the_source() {
    let mut rng = Script { draws: vec![bytes_of(5), [0xff; 32], bytes_of(6), bytes_of(7)], next: 0 };
    let mut parameters = Parameters::new(1, &mut rng).unwrap();
    assert_eq!(parameters.random_scalar().unwrap(), scalar(5));
    assert_eq!(parameters.random_scalars(2).unwrap(), vec![scalar(6), scalar(7)]);
    assert_eq!(parameters.random_scalars(0).unwrap(), vec![]);
    assert_eq!(parameters.rng.next, 4);
}

#[test]
fn thread_source_fills_the_bytes() {
    let mut rng = rand::thread_rng();
    assert_ne!(rng.random_bytes(), rng.random_bytes());
    assert_ne!(Scalar::new_random(&mut rng).unwrap(), Scalar::new_random(&mut rng).unwrap());
}
