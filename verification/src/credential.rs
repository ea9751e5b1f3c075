//! Requests, signatures and shown credentials.
use vstd::prelude::*;

use bls12_381::{G1Affine, G1Projective, G2Affine, Scalar};

use crate::curve;
use crate::curve::Point;
use crate::elgamal;
use crate::field;
use crate::group;
use crate::group::Group;
use crate::hashing;
use crate::interpolation;
use crate::parameters::{Parameters, Setup};
use crate::polynomial;
use crate::proofs;
use crate::proofs::{SignerSecrets, SignerStatement, VerifySecrets};
use crate::random;
use crate::random::RandomSource;
use crate::types;
use crate::types::{
    AttributeList, EncryptedValue, LambdaType, PartialSignature, PointPair, ProvenCredential,
    PublicKey, Request, SecretKey, Shown, Signature, SigningKey, VerifyKey,
};

verus! {

// Requests to sign.

/// The ciphertexts of the attributes, each with the key at the same place, as far as both lists
/// go.
pub open spec fn ciphertexts(
    setup: Setup,
    gamma: Point,
    hash: Point,
    attributes: Seq<nat>,
    keys: Seq<nat>,
) -> Seq<PointPair> {
    Seq::new(
        group::shorter(attributes.len(), keys.len()),
        |i: int| elgamal::ciphertext(setup, gamma, hash, attributes[i], keys[i]),
    )
}

/// The request with these secrets and witnesses. There is none if the commitment does not hash
/// to a point, or if there is no challenge for the proof.
pub open spec fn request(
    setup: Setup,
    gamma: Point,
    secrets: SignerSecrets,
    witnesses: SignerSecrets,
) -> Option<Request> {
    let commit = proofs::attribute_commitment(setup, secrets.blind, secrets.attributes);
    match hashing::commit_hash(commit) {
        Some(hash) => match proofs::signer_proof(
            setup,
            SignerStatement { gamma, commit, hash },
            secrets,
            witnesses,
        ) {
            Some(proof) => Some(
                Request {
                    commit,
                    encrypted: ciphertexts(setup, gamma, hash, secrets.attributes, secrets.keys),
                    proof,
                },
            ),
            None => None,
        },
        None => None,
    }
}

/// The commitment to the attributes.
pub fn compute_attribute_commit<T: RandomSource>(
    params: &Parameters<T>,
    attributes: &AttributeList,
    blinding_factor: &Scalar,
) -> (r: G1Projective)
    ensures
        curve::g1_point(r) == proofs::attribute_commitment(
            params.setup(),
            curve::scalar_value(*blinding_factor),
            group::values(attributes@),
        ),
{
    let hs = params.attribute_generators();
    curve::g1_add(
        &params.g1_multiple(blinding_factor),
        &group::combination(&hs, attributes),
    )
}

/// The ciphertexts of the attributes.
pub fn encrypt_attributes<T: RandomSource>(
    params: &Parameters<T>,
    gamma: &G1Projective,
    commit_hash: &G1Projective,
    attributes: &AttributeList,
    attribute_keys: &Vec<Scalar>,
) -> (r: Vec<EncryptedValue>)
    ensures
        types::point_pairs(r@) == ciphertexts(
            params.setup(),
            curve::g1_point(*gamma),
            curve::g1_point(*commit_hash),
            group::values(attributes@),
            group::values(attribute_keys@),
        ),
{
    let n: usize = if attributes.len() <= attribute_keys.len() {
        attributes.len()
    } else {
        attribute_keys.len()
    };
    let mut encrypted: Vec<EncryptedValue> = Vec::new();
    for i in 0..n
        invariant
            n <= attributes@.len(),
            n <= attribute_keys@.len(),
            encrypted@.len() == i,
            forall|j: int|
                0 <= j < i ==> types::point_pair(#[trigger] encrypted@[j]) == elgamal::ciphertext(
                    params.setup(),
                    curve::g1_point(*gamma),
                    curve::g1_point(*commit_hash),
                    curve::scalar_value(attributes@[j]),
                    curve::scalar_value(attribute_keys@[j]),
                ),
    {
        encrypted.push(
            elgamal::elgamal_encrypt(params, gamma, &attributes[i], commit_hash, &attribute_keys[i]),
        );
    }
    assert(types::point_pairs(encrypted@) =~= ciphertexts(
        params.setup(),
        curve::g1_point(*gamma),
        curve::g1_point(*commit_hash),
        group::values(attributes@),
        group::values(attribute_keys@),
    ));
    encrypted
}

/// The request with given secrets and witnesses.
pub fn request_from_secrets<T: RandomSource>(
    params: &Parameters<T>,
    gamma: &G1Projective,
    attributes: &AttributeList,
    blinding_factor: &Scalar,
    attribute_keys: &Vec<Scalar>,
    witness_blind: &Scalar,
    witness_keys: &Vec<Scalar>,
    witness_attributes: &Vec<Scalar>,
) -> (r: Option<LambdaType>)
    ensures
        types::maybe_request(r) == request(
            params.setup(),
            curve::g1_point(*gamma),
            (SignerSecrets {
                blind: curve::scalar_value(*blinding_factor),
                keys: group::values(attribute_keys@),
                attributes: group::values(attributes@),
            }),
            (SignerSecrets {
                blind: curve::scalar_value(*witness_blind),
                keys: group::values(witness_keys@),
                attributes: group::values(witness_attributes@),
            }),
        ),
{
    let attribute_commit = compute_attribute_commit(params, attributes, blinding_factor);
    let commit_hash = match hashing::compute_commit_hash(&attribute_commit) {
        Some(h) => h,
        None => {
            return None;
        },
    };
    let encrypted_attributes = encrypt_attributes(
        params,
        gamma,
        &commit_hash,
        attributes,
        attribute_keys,
    );
    match proofs::signer_proof_from_witnesses(
        params,
        gamma,
        &attribute_commit,
        &commit_hash,
        attribute_keys,
        attributes,
        blinding_factor,
        witness_blind,
        witness_keys,
        witness_attributes,
    ) {
        Some(signer_proof) => Some((attribute_commit, encrypted_attributes, signer_proof)),
        None => None,
    }
}

/// The secrets are those of the attributes, and the rest of them, like the witnesses, is drawn.
pub open spec fn request_draws(
    attributes: Seq<nat>,
    secrets: SignerSecrets,
    witnesses: SignerSecrets,
) -> bool {
    &&& secrets.blind < field::order()
    &&& secrets.keys.len() == attributes.len()
    &&& random::are_scalars(secrets.keys)
    &&& secrets.attributes == attributes
    &&& witnesses.drawn(attributes.len())
}

/// How many scalars are drawn for a request with `n` attributes.
pub open spec fn request_draw_count(n: nat) -> nat {
    1 + n + proofs::signer_witness_count(n)
}

/// The request with the scalars that are drawn, where they can be: the blinding factor, the keys,
/// and the witnesses of the proof.
pub open spec fn request_drawn(
    setup: Setup,
    gamma: Point,
    attributes: Seq<nat>,
    outcome: Option<Seq<nat>>,
) -> Option<Request> {
    let n = attributes.len() as int;
    match outcome {
        Some(scalars) => request(
            setup,
            gamma,
            SignerSecrets {
                blind: scalars[0],
                keys: scalars.subrange(1, 1 + n),
                attributes,
            },
            proofs::signer_witnesses(
                scalars.subrange(1 + n, scalars.len() as int),
                attributes.len(),
            ),
        ),
        None => None,
    }
}

/// A request to sign the attributes, which it hides. Nothing more is drawn once the commitment
/// does not hash to a point.
pub fn prepare_blind_sign<T: RandomSource>(
    params: &mut Parameters<T>,
    gamma: &G1Projective,
    attributes: &AttributeList,
) -> (r: Option<LambdaType>)
    requires
        old(params).hs@.len() == attributes@.len(),
    ensures
        final(params).setup() == old(params).setup(),
        *final(final(params).rng) == *final(old(params).rng),
        r matches Some(lambda) ==> exists|secrets: SignerSecrets, witnesses: SignerSecrets|
            #[trigger] request_draws(group::values(attributes@), secrets, witnesses) && request(
                old(params).setup(),
                curve::g1_point(*gamma),
                secrets,
                witnesses,
            ) == Some(types::request(lambda)),
        ({
            ||| exists|outcome: Option<Seq<nat>>| #[trigger]
                random::draws_scalars(
                    *old(params).rng,
                    request_draw_count(attributes@.len()),
                    outcome,
                    *final(params).rng,
                ) && types::maybe_request(r) == request_drawn(
                    old(params).setup(),
                    curve::g1_point(*gamma),
                    group::values(attributes@),
                    outcome,
                )
            ||| exists|blind: nat| #[trigger]
                random::draws_scalar(*old(params).rng, Some(blind), *final(params).rng)
                    && hashing::commit_hash(
                    proofs::attribute_commitment(
                        old(params).setup(),
                        blind,
                        group::values(attributes@),
                    ),
                ) is None && r is None
        }),
{
    let ghost n = attributes@.len();
    let ghost count = request_draw_count(n);
    let ghost witness_count = proofs::signer_witness_count(n);
    let ghost before = *params.rng;
    let drawn_blind = params.random_scalar();
    let ghost after_blind = *params.rng;
    proof {
        random::lemma_draw_one(before, types::maybe_scalar(drawn_blind), after_blind);
    }
    let blinding_factor = match drawn_blind {
        Some(s) => s,
        None => {
            proof {
                random::lemma_draw_none(before, 1, after_blind, count);
            }
            return None;
        },
    };
    let ghost first = seq![curve::scalar_value(blinding_factor)];
    let attribute_commit = compute_attribute_commit(params, attributes, &blinding_factor);
    let commit_hash = match hashing::compute_commit_hash(&attribute_commit) {
        Some(h) => h,
        None => {
            return None;
        },
    };

    let drawn_keys = params.random_scalars(attributes.len());
    let ghost after_keys = *params.rng;
    proof {
        random::lemma_draw_more(
            before,
            first,
            after_blind,
            n,
            types::maybe_scalars(drawn_keys),
            after_keys,
        );
    }
    let attribute_keys = match drawn_keys {
        Some(list) => list,
        None => {
            proof {
                random::lemma_draw_none(before, 1 + n, after_keys, count);
            }
            return None;
        },
    };
    let ghost firsts = first + group::values(attribute_keys@);
    let encrypted_attributes = encrypt_attributes(
        params,
        gamma,
        &commit_hash,
        attributes,
        &attribute_keys,
    );
    proof {
        assert(types::point_pairs(encrypted_attributes@).len() == attributes@.len());
        assert(params.setup().hs.len() == old(params).setup().hs.len());
    }
    let ghost setup = old(params).setup();
    let ghost statement = SignerStatement {
        gamma: curve::g1_point(*gamma),
        commit: curve::g1_point(attribute_commit),
        hash: curve::g1_point(commit_hash),
    };
    let ghost secrets = SignerSecrets {
        blind: curve::scalar_value(blinding_factor),
        keys: group::values(attribute_keys@),
        attributes: group::values(attributes@),
    };
    let made = proofs::make_signer_proof(
        params,
        gamma,
        &encrypted_attributes,
        &attribute_commit,
        &commit_hash,
        &attribute_keys,
        attributes,
        &blinding_factor,
    );
    proof {
        let outcome = choose|outcome: Option<Seq<nat>>| #[trigger]
            random::draws_scalars(after_keys, witness_count, outcome, *params.rng)
                && types::maybe_signer_answer(made) == proofs::signer_proof_drawn(
                setup,
                statement,
                secrets,
                n,
                outcome,
            );
        random::lemma_draw_more(before, firsts, after_keys, witness_count, outcome, *params.rng);
        let whole = random::continued(firsts, outcome);
        assert(random::draws_scalars(before, count, whole, *params.rng));
        if let Some(more) = outcome {
            let scalars = firsts + more;
            assert(scalars.subrange(1, 1 + n as int) =~= secrets.keys);
            assert(scalars.subrange(1 + n as int, scalars.len() as int) =~= more);
        }
    }
    let signer_proof = match made {
        Some(proof) => proof,
        None => {
            return None;
        },
    };
    proof {
        let witnesses = choose|witnesses: SignerSecrets| #[trigger]
            witnesses.drawn(attributes@.len()) && proofs::signer_proof(
                setup,
                statement,
                secrets,
                witnesses,
            ) == Some(types::signer_answer(signer_proof));
        assert(request_draws(group::values(attributes@), secrets, witnesses));
    }
    Some((attribute_commit, encrypted_attributes, signer_proof))
}

// Signatures.

/// The encrypted signature on the encrypted attributes.
pub open spec fn blind_signature(
    key: SigningKey,
    hash: Point,
    encrypted: Seq<PointPair>,
) -> PointPair {
    PointPair {
        a: Group::G1.combination(types::firsts(encrypted), key.y),
        b: Group::G1.sum(
            Group::G1.multiple(hash, key.x),
            Group::G1.combination(types::seconds(encrypted), key.y),
        ),
    }
}

/// The proof of a request stands, where the commitment hashes to `hash`.
pub open spec fn request_holds(setup: Setup, gamma: Point, hash: Point, lambda: Request) -> bool {
    proofs::signer_proof_holds(
        setup,
        SignerStatement { gamma, commit: lambda.commit, hash },
        lambda.encrypted,
        lambda.proof,
    )
}

fn split_pairs(pairs: &Vec<EncryptedValue>) -> (r: (Vec<G1Projective>, Vec<G1Projective>))
    ensures
        group::points(r.0@) == types::firsts(types::point_pairs(pairs@)),
        group::points(r.1@) == types::seconds(types::point_pairs(pairs@)),
{
    let mut a_factors: Vec<G1Projective> = Vec::new();
    let mut b_factors: Vec<G1Projective> = Vec::new();
    for i in 0..pairs.len()
        invariant
            a_factors@.len() == i,
            b_factors@.len() == i,
            forall|j: int| 0 <= j < i ==> #[trigger] a_factors@[j] == pairs@[j].0,
            forall|j: int| 0 <= j < i ==> #[trigger] b_factors@[j] == pairs@[j].1,
    {
        a_factors.push(pairs[i].0);
        b_factors.push(pairs[i].1);
    }
    assert(group::points(a_factors@) =~= types::firsts(types::point_pairs(pairs@)));
    assert(group::points(b_factors@) =~= types::seconds(types::point_pairs(pairs@)));
    (a_factors, b_factors)
}

/// The signature of one authority on a request, encrypted as the attributes are. A request whose
/// proof does not stand is refused.
pub fn blind_sign<T: RandomSource>(
    params: &Parameters<T>,
    secret_key: &SecretKey,
    gamma: &G1Projective,
    lambda: &LambdaType,
) -> (r: Result<PartialSignature, &'static str>)
    requires
        lambda.1@.len() == params.hs@.len(),
        lambda.1@.len() == lambda.2.2@.len(),
    ensures
        match hashing::commit_hash(curve::g1_point(lambda.0)) {
            Some(hash) => if request_holds(
                params.setup(),
                curve::g1_point(*gamma),
                hash,
                types::request(*lambda),
            ) {
                r matches Ok(signature) && types::point_pair(signature) == blind_signature(
                    types::signing_key(*secret_key),
                    hash,
                    types::point_pairs(lambda.1@),
                )
            } else {
                r matches Err(message) && message@ == "verify proof failed"@
            },
            None => r matches Err(message) && message@ == "commitment without hash"@,
        },
{
    let x = &secret_key.0;
    let y = &secret_key.1;
    let attribute_commit = &lambda.0;
    let encrypted_attributes = &lambda.1;
    let signer_proof = &lambda.2;

    // Issue signature
    let commit_hash = match hashing::compute_commit_hash(attribute_commit) {
        Some(h) => h,
        None => {
            return Err("commitment without hash");
        },
    };

    // Verify proof here
    if !proofs::verify_signer_proof(
        params,
        gamma,
        encrypted_attributes,
        attribute_commit,
        &commit_hash,
        signer_proof,
    ) {
        return Err("verify proof failed");
    }
    let (a_factors, b_factors) = split_pairs(encrypted_attributes);
    let signature_a = group::combination(&a_factors, y);
    let signature_b = curve::g1_add(
        &curve::g1_multiply(&commit_hash, x),
        &group::combination(&b_factors, y),
    );
    Ok((signature_a, signature_b))
}

/// The signature of one authority, decrypted.
pub fn unblind(private_key: &Scalar, encrypted_value: &PartialSignature) -> (r: G1Projective)
    ensures
        curve::g1_point(r) == elgamal::plaintext(
            curve::scalar_value(*private_key),
            types::point_pair(*encrypted_value),
        ),
{
    elgamal::elgamal_decrypt(private_key, encrypted_value)
}

/// The signature of the authorities with these indexes together.
pub fn aggregate_credential(signature_shares: &Vec<G1Projective>, indexes: &Vec<u64>) -> (r:
    G1Projective)
    ensures
        curve::g1_point(r) == Group::G1.combination(
            group::points(signature_shares@),
            interpolation::basis(polynomial::nodes(indexes@)),
        ),
{
    let lagrange = polynomial::lagrange_basis2(indexes);
    group::combination(signature_shares, &lagrange)
}

// Shown credentials.

/// The random numbers of a shown credential.
#[verifier::ext_equal]
pub struct ShowDraws {
    pub blind_prime: nat,
    pub blind: nat,
    pub witnesses: VerifySecrets,
}

impl ShowDraws {
    /// There are scalars for `n` attributes.
    pub open spec fn drawn(self, n: nat) -> bool {
        &&& self.blind_prime < field::order()
        &&& self.blind < field::order()
        &&& self.witnesses.drawn(n)
    }
}

/// The shown credential for a signature, if there is a challenge for its proof.
pub open spec fn shown_credential(
    setup: Setup,
    key: PublicKey,
    signature: PointPair,
    attributes: Seq<nat>,
    draws: ShowDraws,
) -> Option<Shown> {
    let blinded = PointPair {
        a: Group::G1.multiple(signature.a, draws.blind_prime),
        b: Group::G1.multiple(signature.b, draws.blind_prime),
    };
    match proofs::verify_proof(
        setup,
        key,
        blinded.a,
        VerifySecrets { attributes, blind: draws.blind },
        draws.witnesses,
    ) {
        Some(proof) => Some(
            Shown {
                kappa: proofs::key_commitment(setup, key, draws.blind, attributes),
                v: Group::G1.multiple(blinded.a, draws.blind),
                signature: blinded,
                proof,
            },
        ),
        None => None,
    }
}

/// The shown credential for a signature with given random numbers.
pub fn credential_from_draws<T: RandomSource>(
    params: &Parameters<T>,
    verify_key: &VerifyKey,
    signature: &Signature,
    attributes: &Vec<Scalar>,
    blind_prime: &Scalar,
    blind: &Scalar,
    witness_kappa: &Vec<Scalar>,
    witness_blind: &Scalar,
) -> (r: Option<ProvenCredential>)
    ensures
        types::maybe_shown(r) == shown_credential(
            params.setup(),
            types::public_key(*verify_key),
            types::point_pair(*signature),
            group::values(attributes@),
            (ShowDraws {
                blind_prime: curve::scalar_value(*blind_prime),
                blind: curve::scalar_value(*blind),
                witnesses: (VerifySecrets {
                    attributes: group::values(witness_kappa@),
                    blind: curve::scalar_value(*witness_blind),
                }),
            }),
        ),
{
    let blinded_commit_hash = curve::g1_multiply(&signature.0, blind_prime);
    let blinded_sigma = curve::g1_multiply(&signature.1, blind_prime);
    let kappa = proofs::compute_key_commitment(params, verify_key, blind, attributes);
    let v = curve::g1_multiply(&blinded_commit_hash, blind);
    match proofs::verify_proof_from_witnesses(
        params,
        verify_key,
        &blinded_commit_hash,
        attributes,
        blind,
        witness_kappa,
        witness_blind,
    ) {
        Some(proof) => Some((kappa, v, (blinded_commit_hash, blinded_sigma), proof)),
        None => None,
    }
}

/// How many scalars are drawn for a shown credential with `n` attributes.
pub open spec fn show_draw_count(n: nat) -> nat {
    1 + 1 + proofs::verify_witness_count(n)
}

/// The shown credential with the scalars that are drawn, where they can be: the number
/// `blind_prime`, the blinding factor, and the witnesses of the proof.
pub open spec fn shown_drawn(
    setup: Setup,
    key: PublicKey,
    signature: PointPair,
    attributes: Seq<nat>,
    outcome: Option<Seq<nat>>,
) -> Option<Shown> {
    match outcome {
        Some(scalars) => shown_credential(
            setup,
            key,
            signature,
            attributes,
            ShowDraws {
                blind_prime: scalars[0],
                blind: scalars[1],
                witnesses: proofs::verify_witnesses(scalars.subrange(2, scalars.len() as int)),
            },
        ),
        None => None,
    }
}

/// A shown credential for a signature: it proves that the attributes are signed, and shows
/// neither them nor the signature.
pub fn prove_credential<T: RandomSource>(
    params: &mut Parameters<T>,
    verify_key: &VerifyKey,
    signature: &Signature,
    attributes: &Vec<Scalar>,
) -> (r: Option<ProvenCredential>)
    requires
        attributes@.len() == verify_key.1@.len(),
    ensures
        final(params).setup() == old(params).setup(),
        *final(final(params).rng) == *final(old(params).rng),
        r matches Some(credential) ==> exists|draws: ShowDraws| #[trigger]
            draws.drawn(attributes@.len()) && shown_credential(
                old(params).setup(),
                types::public_key(*verify_key),
                types::point_pair(*signature),
                group::values(attributes@),
                draws,
            ) == Some(types::shown(credential)),
        exists|outcome: Option<Seq<nat>>| #[trigger]
            random::draws_scalars(
                *old(params).rng,
                show_draw_count(attributes@.len()),
                outcome,
                *final(params).rng,
            ) && types::maybe_shown(r) == shown_drawn(
                old(params).setup(),
                types::public_key(*verify_key),
                types::point_pair(*signature),
                group::values(attributes@),
                outcome,
            ),
{
    let ghost n = attributes@.len();
    let ghost count = show_draw_count(n);
    let ghost witness_count = proofs::verify_witness_count(n);
    let ghost before = *params.rng;
    let drawn_prime = params.random_scalar();
    let ghost after_prime = *params.rng;
    proof {
        random::lemma_draw_one(before, types::maybe_scalar(drawn_prime), after_prime);
    }
    let blind_prime = match drawn_prime {
        Some(s) => s,
        None => {
            proof {
                random::lemma_draw_none(before, 1, after_prime, count);
            }
            return None;
        },
    };
    let ghost first = seq![curve::scalar_value(blind_prime)];
    let blinded_commit_hash = curve::g1_multiply(&signature.0, &blind_prime);
    let blinded_sigma = curve::g1_multiply(&signature.1, &blind_prime);

    let drawn_blind = params.random_scalar();
    let ghost after_blind = *params.rng;
    proof {
        random::lemma_draw_one(after_prime, types::maybe_scalar(drawn_blind), after_blind);
        random::lemma_draw_more(
            before,
            first,
            after_prime,
            1,
            random::single(types::maybe_scalar(drawn_blind)),
            after_blind,
        );
    }
    let blind = match drawn_blind {
        Some(s) => s,
        None => {
            proof {
                random::lemma_draw_none(before, 1 + 1, after_blind, count);
            }
            return None;
        },
    };
    let ghost firsts = first + seq![curve::scalar_value(blind)];

    let kappa = proofs::compute_key_commitment(params, verify_key, &blind, attributes);
    let v = curve::g1_multiply(&blinded_commit_hash, &blind);

    let made = proofs::make_verify_proof(
        params,
        verify_key,
        &blinded_commit_hash,
        attributes,
        &blind,
    );
    proof {
        let outcome = choose|outcome: Option<Seq<nat>>| #[trigger]
            random::draws_scalars(after_blind, witness_count, outcome, *params.rng)
                && types::maybe_verify_answer(made) == proofs::verify_proof_drawn(
                old(params).setup(),
                types::public_key(*verify_key),
                curve::g1_point(blinded_commit_hash),
                VerifySecrets {
                    attributes: group::values(attributes@),
                    blind: curve::scalar_value(blind),
                },
                outcome,
            );
        random::lemma_draw_more(before, firsts, after_blind, witness_count, outcome, *params.rng);
        let whole = random::continued(firsts, outcome);
        assert(random::draws_scalars(before, count, whole, *params.rng));
        if let Some(more) = outcome {
            let scalars = firsts + more;
            assert(scalars.subrange(2, scalars.len() as int) =~= more);
        }
    }
    let proof = match made {
        Some(proof) => proof,
        None => {
            return None;
        },
    };
    proof {
        let witnesses = choose|witnesses: VerifySecrets| #[trigger]
            witnesses.drawn(attributes@.len()) && proofs::verify_proof(
                old(params).setup(),
                types::public_key(*verify_key),
                curve::g1_point(blinded_commit_hash),
                VerifySecrets {
                    attributes: group::values(attributes@),
                    blind: curve::scalar_value(blind),
                },
                witnesses,
            ) == Some(types::verify_answer(proof));
        let draws = ShowDraws {
            blind_prime: curve::scalar_value(blind_prime),
            blind: curve::scalar_value(blind),
            witnesses,
        };
        assert(draws.drawn(attributes@.len()));
    }
    Some((kappa, v, (blinded_commit_hash, blinded_sigma), proof))
}

/// The proof of a shown credential stands.
pub open spec fn shown_holds(setup: Setup, key: PublicKey, credential: Shown) -> bool {
    proofs::verify_proof_holds(
        setup,
        key,
        credential.signature.a,
        credential.kappa,
        credential.v,
        credential.proof,
    )
}

/// The points of a shown credential of which pairings are computed are in the groups.
pub open spec fn in_groups(setup: Setup, credential: Shown) -> bool {
    &&& setup.g2 is Member
    &&& credential.kappa is Member
    &&& credential.signature.a is Member
    &&& Group::G1.sum(credential.signature.b, credential.v) is Member
}

/// The exponent of the pairing of two points in the groups.
pub open spec fn pairing_exponent(p: Point, q: Point) -> nat {
    field::reduce((p->Member_0 * q->Member_0) as int)
}

/// The two pairings of a shown credential agree.
pub open spec fn pairings_agree(setup: Setup, credential: Shown) -> bool {
    pairing_exponent(credential.signature.a, credential.kappa) == pairing_exponent(
        Group::G1.sum(credential.signature.b, credential.v),
        setup.g2,
    )
}

/// The points of which pairings are computed: the blinded hash, the point `kappa`, and the sum
/// of the blinded signature and the point `v`.
fn pairing_points(credential: &ProvenCredential) -> (r: (G1Affine, G2Affine, G1Affine))
    ensures
        curve::g1_affine_point(r.0) == types::shown(*credential).signature.a,
        curve::g2_affine_point(r.1) == types::shown(*credential).kappa,
        curve::g1_affine_point(r.2) == Group::G1.sum(
            types::shown(*credential).signature.b,
            types::shown(*credential).v,
        ),
{
    let kappa = curve::g2_to_affine(&credential.0);
    let blind_commit = curve::g1_to_affine(&credential.2.0);
    let sigma_nu = curve::g1_to_affine(&curve::g1_add(&credential.2.1, &credential.1));
    (blind_commit, kappa, sigma_nu)
}

/// Whether a shown credential is good: its proof stands and its pairings agree.
pub fn verify_credential<T: RandomSource>(
    params: &Parameters<T>,
    verify_key: &VerifyKey,
    proven_credential: &ProvenCredential,
) -> (r: bool)
    requires
        shown_holds(
            params.setup(),
            types::public_key(*verify_key),
            types::shown(*proven_credential),
        ) ==> in_groups(params.setup(), types::shown(*proven_credential)),
    ensures
        r == (shown_holds(
            params.setup(),
            types::public_key(*verify_key),
            types::shown(*proven_credential),
        ) && pairings_agree(params.setup(), types::shown(*proven_credential))),
{
    if !proofs::verify_verify_proof(
        params,
        verify_key,
        &proven_credential.2.0,
        &proven_credential.0,
        &proven_credential.1,
        &proven_credential.3,
    ) {
        return false;
    }
    let (blind_commit, kappa, sigma_nu) = pairing_points(proven_credential);
    curve::gt_equal(
        &bls12_381::pairing(&blind_commit, &kappa),
        &bls12_381::pairing(&sigma_nu, &params.g2),
    )
}

/// Whether a point of the first group is in the group.
fn g1_in_group(p: &G1Affine) -> (r: bool)
    ensures
        r == (curve::g1_affine_point(*p) is Member),
{
    curve::g1_is_on_curve(p) && curve::g1_is_torsion_free(p)
}

/// Whether a point of the second group is in the group.
fn g2_in_group(p: &G2Affine) -> (r: bool)
    ensures
        r == (curve::g2_affine_point(*p) is Member),
{
    curve::g2_is_on_curve(p) && curve::g2_is_torsion_free(p)
}

/// Whether a shown credential is good, where points of it may come from outside the groups: there
/// is no answer if its proof stands and a pairing would be computed of such a point.
pub fn try_verify_credential<T: RandomSource>(
    params: &Parameters<T>,
    verify_key: &VerifyKey,
    proven_credential: &ProvenCredential,
) -> (r: Option<bool>)
    ensures
        ({
            let setup = params.setup();
            let credential = types::shown(*proven_credential);
            if shown_holds(setup, types::public_key(*verify_key), credential) {
                if in_groups(setup, credential) {
                    r == Some(pairings_agree(setup, credential))
                } else {
                    r is None
                }
            } else {
                r == Some(false)
            }
        }),
{
    let (blind_commit, kappa, sigma_nu) = pairing_points(proven_credential);
    if g1_in_group(&blind_commit) && g2_in_group(&kappa) && g1_in_group(&sigma_nu) && g2_in_group(
        &params.g2,
    ) {
        Some(verify_credential(params, verify_key, proven_credential))
    } else if proofs::verify_verify_proof(
        params,
        verify_key,
        &proven_credential.2.0,
        &proven_credential.0,
        &proven_credential.1,
        &proven_credential.3,
    ) {
        None
    } else {
        Some(false)
    }
}

} // verus!
