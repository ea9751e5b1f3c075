//! The proofs of knowledge that accompany requests and shown credentials.
use vstd::prelude::*;

use bls12_381::{G1Projective, G2Projective, Scalar};

use crate::curve;
use crate::curve::Point;
use crate::field;
use crate::group;
use crate::group::Group;
use crate::hashing;
use crate::parameters::{Parameters, Setup};
use crate::random;
use crate::random::RandomSource;
use crate::types;
use crate::types::{
    AttributeList, EncryptedValue, PointPair, PublicKey, SignerAnswer, SignerProof, VerifyAnswer,
    VerifyKey, VerifyProof,
};

verus! {

/// The response for the secret `k` with the witness `w` to the challenge `c`.
pub open spec fn response(w: nat, c: nat, k: nat) -> nat {
    field::reduce(w - c * k)
}

/// The responses for secrets and witnesses at the same place, as far as both lists go.
pub open spec fn responses(witnesses: Seq<nat>, c: nat, secrets: Seq<nat>) -> Seq<nat> {
    Seq::new(
        group::shorter(witnesses.len(), secrets.len()),
        |i: int| response(witnesses[i], c, secrets[i]),
    )
}

fn compute_response(witness: &Scalar, challenge: &Scalar, secret: &Scalar) -> (r: Scalar)
    ensures
        curve::scalar_value(r) == response(
            curve::scalar_value(*witness),
            curve::scalar_value(*challenge),
            curve::scalar_value(*secret),
        ),
{
    let product = curve::scalar_multiply(challenge, secret);
    proof {
        let w = curve::scalar_value(*witness) as int;
        let ck = curve::scalar_value(*challenge) * curve::scalar_value(*secret);
        field::lemma_reduce(ck as int);
        field::lemma_subtract(w, w, curve::scalar_value(product) as int, ck as int);
    }
    curve::scalar_subtract(witness, &product)
}

fn compute_responses(witnesses: &Vec<Scalar>, challenge: &Scalar, secrets: &Vec<Scalar>) -> (r: Vec<
    Scalar,
>)
    ensures
        group::values(r@) == responses(
            group::values(witnesses@),
            curve::scalar_value(*challenge),
            group::values(secrets@),
        ),
{
    let n: usize = if witnesses.len() <= secrets.len() {
        witnesses.len()
    } else {
        secrets.len()
    };
    let mut list: Vec<Scalar> = Vec::new();
    for i in 0..n
        invariant
            n <= witnesses@.len(),
            n <= secrets@.len(),
            list@.len() == i,
            forall|j: int|
                0 <= j < i ==> curve::scalar_value(#[trigger] list@[j]) == response(
                    curve::scalar_value(witnesses@[j]),
                    curve::scalar_value(*challenge),
                    curve::scalar_value(secrets@[j]),
                ),
    {
        list.push(compute_response(&witnesses[i], challenge, &secrets[i]));
    }
    assert(group::values(list@) =~= responses(
        group::values(witnesses@),
        curve::scalar_value(*challenge),
        group::values(secrets@),
    ));
    list
}

fn append_points<G: Copy>(list: &mut Vec<G>, more: &Vec<G>)
    ensures
        final(list)@ == old(list)@ + more@,
{
    let ghost before = list@;
    assert(before =~= before + more@.take(0));
    for i in 0..more.len()
        invariant
            list@ == before + more@.take(i as int),
    {
        list.push(more[i]);
        assert(list@ =~= before + more@.take(i + 1));
    }
    assert(more@.take(more@.len() as int) =~= more@);
}

// The proof for the signer.

/// What the proof for the signer is about, besides the ciphertexts: the key under which they are
/// made, the commitment to the attributes and the point to which it hashes.
pub struct SignerStatement {
    pub gamma: Point,
    pub commit: Point,
    pub hash: Point,
}

/// Commitments in the form of the first components of the ciphertexts.
pub open spec fn first_commitments(setup: Setup, keys: Seq<nat>) -> Seq<Point> {
    Seq::new(keys.len(), |i: int| Group::G1.multiple(setup.g1, keys[i]))
}

/// Commitments in the form of the second components of the ciphertexts.
pub open spec fn second_commitments(
    statement: SignerStatement,
    keys: Seq<nat>,
    attributes: Seq<nat>,
) -> Seq<Point> {
    Seq::new(
        group::shorter(keys.len(), attributes.len()),
        |i: int|
            Group::G1.sum(
                Group::G1.multiple(statement.gamma, keys[i]),
                Group::G1.multiple(statement.hash, attributes[i]),
            ),
    )
}

/// The commitment to the attributes under the blinding factor `blind`.
pub open spec fn attribute_commitment(setup: Setup, blind: nat, attributes: Seq<nat>) -> Point {
    Group::G1.sum(
        Group::G1.multiple(setup.g1, blind),
        Group::G1.combination(setup.hs, attributes),
    )
}

/// The challenge of the proof for the signer, out of the commitments to the witnesses.
pub open spec fn signer_challenge(
    setup: Setup,
    commit: Point,
    hash: Point,
    witness_commit: Point,
    firsts: Seq<Point>,
    seconds: Seq<Point>,
) -> Option<nat> {
    hashing::challenge(
        seq![setup.g1, commit, hash, witness_commit] + firsts + seconds + setup.hs,
        seq![setup.g2],
    )
}

/// The secrets behind a request, or the witnesses of a proof for the signer.
#[verifier::ext_equal]
pub struct SignerSecrets {
    pub blind: nat,
    pub keys: Seq<nat>,
    pub attributes: Seq<nat>,
}

/// The proof for the signer with these secrets and witnesses, if there is a challenge for it.
pub open spec fn signer_proof(
    setup: Setup,
    statement: SignerStatement,
    secrets: SignerSecrets,
    witnesses: SignerSecrets,
) -> Option<SignerAnswer> {
    match signer_challenge(
        setup,
        statement.commit,
        statement.hash,
        attribute_commitment(setup, witnesses.blind, witnesses.attributes),
        first_commitments(setup, witnesses.keys),
        second_commitments(statement, witnesses.keys, witnesses.attributes),
    ) {
        Some(c) => Some(
            SignerAnswer {
                challenge: c,
                blind: response(witnesses.blind, c, secrets.blind),
                keys: responses(witnesses.keys, c, secrets.keys),
                attributes: responses(witnesses.attributes, c, secrets.attributes),
            },
        ),
        None => None,
    }
}

/// The first components of the ciphertexts, brought to the form of commitments to witnesses.
pub open spec fn recomputed_firsts(
    setup: Setup,
    encrypted: Seq<PointPair>,
    proof: SignerAnswer,
) -> Seq<Point> {
    Seq::new(
        group::shorter(encrypted.len(), proof.keys.len()),
        |i: int|
            Group::G1.sum(
                Group::G1.multiple(encrypted[i].a, proof.challenge),
                Group::G1.multiple(setup.g1, proof.keys[i]),
            ),
    )
}

/// The second components of the ciphertexts, brought to the form of commitments to witnesses.
pub open spec fn recomputed_seconds(
    statement: SignerStatement,
    encrypted: Seq<PointPair>,
    proof: SignerAnswer,
) -> Seq<Point> {
    Seq::new(
        group::shorter(
            group::shorter(encrypted.len(), proof.keys.len()),
            proof.attributes.len(),
        ),
        |i: int|
            Group::G1.sum(
                Group::G1.sum(
                    Group::G1.multiple(encrypted[i].b, proof.challenge),
                    Group::G1.multiple(statement.gamma, proof.keys[i]),
                ),
                Group::G1.multiple(statement.hash, proof.attributes[i]),
            ),
    )
}

/// The commitment to the attributes, brought to the form of a commitment to witnesses.
pub open spec fn recomputed_commitment(
    setup: Setup,
    statement: SignerStatement,
    proof: SignerAnswer,
) -> Point {
    Group::G1.sum(
        Group::G1.sum(
            Group::G1.multiple(statement.commit, proof.challenge),
            Group::G1.multiple(setup.g1, proof.blind),
        ),
        Group::G1.combination(setup.hs, proof.attributes),
    )
}

/// The proof for the signer stands: its challenge is that of the recomputed commitments.
pub open spec fn signer_proof_holds(
    setup: Setup,
    statement: SignerStatement,
    encrypted: Seq<PointPair>,
    proof: SignerAnswer,
) -> bool {
    signer_challenge(
        setup,
        statement.commit,
        statement.hash,
        recomputed_commitment(setup, statement, proof),
        recomputed_firsts(setup, encrypted, proof),
        recomputed_seconds(statement, encrypted, proof),
    ) == Some(proof.challenge)
}

fn compute_signer_challenge<T: RandomSource>(
    params: &Parameters<T>,
    attribute_commit: &G1Projective,
    commit_hash: &G1Projective,
    witness_commit_attributes: &G1Projective,
    witness_commit_a: &Vec<G1Projective>,
    witness_commit_b: &Vec<G1Projective>,
) -> (r: Option<Scalar>)
    ensures
        types::maybe_scalar(r) == signer_challenge(
            params.setup(),
            curve::g1_point(*attribute_commit),
            curve::g1_point(*commit_hash),
            curve::g1_point(*witness_commit_attributes),
            group::points(witness_commit_a@),
            group::points(witness_commit_b@),
        ),
{
    let g1 = curve::g1_from_affine(&params.g1);
    let hs = params.attribute_generators();
    let mut points: Vec<G1Projective> = vec![
        g1,
        *attribute_commit,
        *commit_hash,
        *witness_commit_attributes,
    ];
    append_points(&mut points, witness_commit_a);
    append_points(&mut points, witness_commit_b);
    append_points(&mut points, &hs);
    let points_g2: Vec<G2Projective> = vec![curve::g2_from_affine(&params.g2)];
    proof {
        let setup = params.setup();
        assert(group::points(points@) =~= seq![
            setup.g1,
            curve::g1_point(*attribute_commit),
            curve::g1_point(*commit_hash),
            curve::g1_point(*witness_commit_attributes),
        ] + group::points(witness_commit_a@) + group::points(witness_commit_b@) + setup.hs);
        assert(group::points(points_g2@) =~= seq![setup.g2]);
    }
    hashing::compute_challenge(&points, &points_g2)
}

/// The proof for the signer with given witnesses.
pub fn signer_proof_from_witnesses<T: RandomSource>(
    params: &Parameters<T>,
    gamma: &G1Projective,
    attribute_commit: &G1Projective,
    commit_hash: &G1Projective,
    attribute_keys: &Vec<Scalar>,
    attributes: &AttributeList,
    blinding_factor: &Scalar,
    witness_blind: &Scalar,
    witness_keys: &Vec<Scalar>,
    witness_attributes: &Vec<Scalar>,
) -> (r: Option<SignerProof>)
    ensures
        types::maybe_signer_answer(r) == signer_proof(
            params.setup(),
            (SignerStatement {
                gamma: curve::g1_point(*gamma),
                commit: curve::g1_point(*attribute_commit),
                hash: curve::g1_point(*commit_hash),
            }),
            (SignerSecrets {
                blind: curve::scalar_value(*blinding_factor),
                keys: group::values(attribute_keys@),
                attributes: group::values(attributes@),
            }),
            (SignerSecrets {
                blind: curve::scalar_value(*witness_blind),
                keys: group::values(witness_keys@),
                attributes: group::values(witness_attributes@),
            }),
        ),
{
    let ghost statement = SignerStatement {
        gamma: curve::g1_point(*gamma),
        commit: curve::g1_point(*attribute_commit),
        hash: curve::g1_point(*commit_hash),
    };

    // Witness commit
    let mut witness_commit_a: Vec<G1Projective> = Vec::new();
    for i in 0..witness_keys.len()
        invariant
            witness_commit_a@.len() == i,
            forall|j: int|
                0 <= j < i ==> curve::g1_point(#[trigger] witness_commit_a@[j])
                    == Group::G1.multiple(
                    params.setup().g1,
                    curve::scalar_value(witness_keys@[j]),
                ),
    {
        witness_commit_a.push(params.g1_multiple(&witness_keys[i]));
    }
    let n: usize = if witness_keys.len() <= witness_attributes.len() {
        witness_keys.len()
    } else {
        witness_attributes.len()
    };
    let mut witness_commit_b: Vec<G1Projective> = Vec::new();
    for i in 0..n
        invariant
            n <= witness_keys@.len(),
            n <= witness_attributes@.len(),
            witness_commit_b@.len() == i,
            forall|j: int|
                0 <= j < i ==> curve::g1_point(#[trigger] witness_commit_b@[j]) == Group::G1.sum(
                    Group::G1.multiple(
                        curve::g1_point(*gamma),
                        curve::scalar_value(witness_keys@[j]),
                    ),
                    Group::G1.multiple(
                        curve::g1_point(*commit_hash),
                        curve::scalar_value(witness_attributes@[j]),
                    ),
                ),
    {
        let key_part = curve::g1_multiply(gamma, &witness_keys[i]);
        let attribute_part = curve::g1_multiply(commit_hash, &witness_attributes[i]);
        witness_commit_b.push(curve::g1_add(&key_part, &attribute_part));
    }
    let hs = params.attribute_generators();
    let witness_commit_attributes = curve::g1_add(
        &params.g1_multiple(witness_blind),
        &group::combination(&hs, witness_attributes),
    );
    assert(group::points(witness_commit_a@) =~= first_commitments(
        params.setup(),
        group::values(witness_keys@),
    ));
    assert(group::points(witness_commit_b@) =~= second_commitments(
        statement,
        group::values(witness_keys@),
        group::values(witness_attributes@),
    ));

    // Challenge
    let found = compute_signer_challenge(
        params,
        attribute_commit,
        commit_hash,
        &witness_commit_attributes,
        &witness_commit_a,
        &witness_commit_b,
    );

    // Responses
    match found {
        Some(challenge) => {
            let response_blind = compute_response(witness_blind, &challenge, blinding_factor);
            let response_keys = compute_responses(witness_keys, &challenge, attribute_keys);
            let response_attributes = compute_responses(
                witness_attributes,
                &challenge,
                attributes,
            );
            Some((challenge, response_blind, response_keys, response_attributes))
        },
        None => None,
    }
}

impl SignerSecrets {
    /// There are scalars for `n` attributes.
    pub open spec fn drawn(self, n: nat) -> bool {
        &&& self.blind < field::order()
        &&& self.keys.len() == n
        &&& random::are_scalars(self.keys)
        &&& self.attributes.len() == n
        &&& random::are_scalars(self.attributes)
    }
}

/// How many witnesses a proof for the signer has, for `n` attributes.
pub open spec fn signer_witness_count(n: nat) -> nat {
    1 + n + n
}

/// The witnesses of a proof for the signer, in the order in which they are drawn.
pub open spec fn signer_witnesses(scalars: Seq<nat>, n: nat) -> SignerSecrets {
    SignerSecrets {
        blind: scalars[0],
        keys: scalars.subrange(1, 1 + n as int),
        attributes: scalars.subrange(1 + n as int, 1 + n as int + n as int),
    }
}

/// The proof for the signer with the witnesses that are drawn, where they can be.
pub open spec fn signer_proof_drawn(
    setup: Setup,
    statement: SignerStatement,
    secrets: SignerSecrets,
    n: nat,
    outcome: Option<Seq<nat>>,
) -> Option<SignerAnswer> {
    match outcome {
        Some(scalars) => signer_proof(setup, statement, secrets, signer_witnesses(scalars, n)),
        None => None,
    }
}

/// The proof for the signer, with random witnesses.
pub fn make_signer_proof<T: RandomSource>(
    params: &mut Parameters<T>,
    gamma: &G1Projective,
    ciphertext: &Vec<EncryptedValue>,
    attribute_commit: &G1Projective,
    commit_hash: &G1Projective,
    attribute_keys: &Vec<Scalar>,
    attributes: &AttributeList,
    blinding_factor: &Scalar,
) -> (r: Option<SignerProof>)
    requires
        ciphertext@.len() == attribute_keys@.len(),
        ciphertext@.len() == attributes@.len(),
        attributes@.len() == old(params).hs@.len(),
    ensures
        final(params).setup() == old(params).setup(),
        *final(final(params).rng) == *final(old(params).rng),
        r matches Some(proof) ==> exists|witnesses: SignerSecrets| #[trigger]
            witnesses.drawn(attributes@.len()) && signer_proof(
                old(params).setup(),
                (SignerStatement {
                    gamma: curve::g1_point(*gamma),
                    commit: curve::g1_point(*attribute_commit),
                    hash: curve::g1_point(*commit_hash),
                }),
                (SignerSecrets {
                    blind: curve::scalar_value(*blinding_factor),
                    keys: group::values(attribute_keys@),
                    attributes: group::values(attributes@),
                }),
                witnesses,
            ) == Some(types::signer_answer(proof)),
        exists|outcome: Option<Seq<nat>>| #[trigger]
            random::draws_scalars(
                *old(params).rng,
                signer_witness_count(attributes@.len()),
                outcome,
                *final(params).rng,
            ) && types::maybe_signer_answer(r) == signer_proof_drawn(
                old(params).setup(),
                (SignerStatement {
                    gamma: curve::g1_point(*gamma),
                    commit: curve::g1_point(*attribute_commit),
                    hash: curve::g1_point(*commit_hash),
                }),
                (SignerSecrets {
                    blind: curve::scalar_value(*blinding_factor),
                    keys: group::values(attribute_keys@),
                    attributes: group::values(attributes@),
                }),
                attributes@.len(),
                outcome,
            ),
{
    let ghost n = attributes@.len();
    let ghost count = signer_witness_count(n);
    let ghost before = *params.rng;

    // Random witness
    let drawn_blind = params.random_scalar();
    let ghost after_blind = *params.rng;
    proof {
        random::lemma_draw_one(before, types::maybe_scalar(drawn_blind), after_blind);
    }
    let witness_blind = match drawn_blind {
        Some(s) => s,
        None => {
            proof {
                random::lemma_draw_none(before, 1, after_blind, count);
            }
            return None;
        },
    };
    let ghost first = seq![curve::scalar_value(witness_blind)];
    let drawn_keys = params.random_scalars(attribute_keys.len());
    let ghost after_keys = *params.rng;
    proof {
        random::lemma_draw_more(
            before,
            first,
            after_blind,
            n,
            types::maybe_scalars(drawn_keys),
            after_keys,
        );
    }
    let witness_keys = match drawn_keys {
        Some(list) => list,
        None => {
            proof {
                random::lemma_draw_none(before, 1 + n, after_keys, count);
            }
            return None;
        },
    };
    let ghost firsts = first + group::values(witness_keys@);
    let drawn_attributes = params.random_scalars(attributes.len());
    proof {
        random::lemma_draw_more(
            before,
            firsts,
            after_keys,
            n,
            types::maybe_scalars(drawn_attributes),
            *params.rng,
        );
    }
    let witness_attributes = match drawn_attributes {
        Some(list) => list,
        None => {
            return None;
        },
    };
    let ghost witnesses = SignerSecrets {
        blind: curve::scalar_value(witness_blind),
        keys: group::values(witness_keys@),
        attributes: group::values(witness_attributes@),
    };
    assert(signer_witnesses(firsts + group::values(witness_attributes@), n) =~= witnesses);
    assert(witnesses.drawn(attributes@.len()));
    signer_proof_from_witnesses(
        params,
        gamma,
        attribute_commit,
        commit_hash,
        attribute_keys,
        attributes,
        blinding_factor,
        &witness_blind,
        &witness_keys,
        &witness_attributes,
    )
}

/// Whether the proof for the signer stands. Where there is no challenge to compare with, it does
/// not.
pub fn verify_signer_proof<T: RandomSource>(
    params: &Parameters<T>,
    gamma: &G1Projective,
    ciphertext: &Vec<EncryptedValue>,
    attribute_commit: &G1Projective,
    commit_hash: &G1Projective,
    proof: &SignerProof,
) -> (r: bool)
    requires
        ciphertext@.len() == proof.2@.len(),
    ensures
        r == signer_proof_holds(
            params.setup(),
            (SignerStatement {
                gamma: curve::g1_point(*gamma),
                commit: curve::g1_point(*attribute_commit),
                hash: curve::g1_point(*commit_hash),
            }),
            types::point_pairs(ciphertext@),
            types::signer_answer(*proof),
        ),
{
    let challenge = &proof.0;
    let response_blind = &proof.1;
    let response_keys = &proof.2;
    let response_attributes = &proof.3;
    let ghost setup = params.setup();
    let ghost statement = SignerStatement {
        gamma: curve::g1_point(*gamma),
        commit: curve::g1_point(*attribute_commit),
        hash: curve::g1_point(*commit_hash),
    };
    let ghost encrypted = types::point_pairs(ciphertext@);
    let ghost answer = types::signer_answer(*proof);

    // Recompute witness commitments
    let mut witness_commit_a: Vec<G1Projective> = Vec::new();
    for i in 0..ciphertext.len()
        invariant
            ciphertext@.len() == response_keys@.len(),
            response_keys@ == proof.2@,
            *challenge == proof.0,
            setup == params.setup(),
            encrypted == types::point_pairs(ciphertext@),
            answer == types::signer_answer(*proof),
            witness_commit_a@.len() == i,
            forall|j: int|
                0 <= j < i ==> curve::g1_point(#[trigger] witness_commit_a@[j])
                    == recomputed_firsts(setup, encrypted, answer)[j],
    {
        let a_part = curve::g1_multiply(&ciphertext[i].0, challenge);
        let key_part = params.g1_multiple(&response_keys[i]);
        witness_commit_a.push(curve::g1_add(&a_part, &key_part));
    }
    let n: usize = if ciphertext.len() <= response_attributes.len() {
        ciphertext.len()
    } else {
        response_attributes.len()
    };
    let mut witness_commit_b: Vec<G1Projective> = Vec::new();
    for i in 0..n
        invariant
            n == group::shorter(ciphertext@.len(), response_attributes@.len()),
            ciphertext@.len() == response_keys@.len(),
            response_keys@ == proof.2@,
            response_attributes@ == proof.3@,
            *challenge == proof.0,
            statement.gamma == curve::g1_point(*gamma),
            statement.hash == curve::g1_point(*commit_hash),
            encrypted == types::point_pairs(ciphertext@),
            answer == types::signer_answer(*proof),
            witness_commit_b@.len() == i,
            forall|j: int|
                0 <= j < i ==> curve::g1_point(#[trigger] witness_commit_b@[j])
                    == recomputed_seconds(statement, encrypted, answer)[j],
    {
        let b_part = curve::g1_multiply(&ciphertext[i].1, challenge);
        let key_part = curve::g1_multiply(gamma, &response_keys[i]);
        let attribute_part = curve::g1_multiply(commit_hash, &response_attributes[i]);
        witness_commit_b.push(
            curve::g1_add(&curve::g1_add(&b_part, &key_part), &attribute_part),
        );
    }
    let hs = params.attribute_generators();
    let witness_commit_attributes = curve::g1_add(
        &curve::g1_add(
            &curve::g1_multiply(attribute_commit, challenge),
            &params.g1_multiple(response_blind),
        ),
        &group::combination(&hs, response_attributes),
    );
    assert(group::points(witness_commit_a@) =~= recomputed_firsts(setup, encrypted, answer));
    assert(group::points(witness_commit_b@) =~= recomputed_seconds(statement, encrypted, answer));

    // Challenge
    let recomputed_challenge = compute_signer_challenge(
        params,
        attribute_commit,
        commit_hash,
        &witness_commit_attributes,
        &witness_commit_a,
        &witness_commit_b,
    );
    match recomputed_challenge {
        Some(recomputed) => curve::scalar_equal(challenge, &recomputed),
        None => false,
    }
}

// The proof for the verifier.

/// The point that commits to the attributes under a verification key.
pub open spec fn key_commitment(
    setup: Setup,
    key: PublicKey,
    blind: nat,
    attributes: Seq<nat>,
) -> Point {
    Group::G2.sum(
        Group::G2.sum(Group::G2.multiple(setup.g2, blind), key.alpha),
        Group::G2.combination(key.beta, attributes),
    )
}

/// The challenge of the proof for the verifier, out of the commitments to the witnesses.
pub open spec fn verify_challenge(
    setup: Setup,
    key: PublicKey,
    witness_kappa: Point,
    witness_blind: Point,
) -> Option<nat> {
    hashing::challenge(
        seq![setup.g1, witness_blind] + setup.hs,
        seq![setup.g2, key.alpha, witness_kappa] + key.beta,
    )
}

/// The secrets behind a shown credential, or the witnesses of a proof for the verifier.
#[verifier::ext_equal]
pub struct VerifySecrets {
    pub attributes: Seq<nat>,
    pub blind: nat,
}

impl VerifySecrets {
    /// There are scalars for `n` attributes.
    pub open spec fn drawn(self, n: nat) -> bool {
        &&& self.attributes.len() == n
        &&& random::are_scalars(self.attributes)
        &&& self.blind < field::order()
    }
}

/// The proof for the verifier with these secrets and witnesses, if there is a challenge for it.
/// The point `hash` is the blinded point to which the commitment hashes.
pub open spec fn verify_proof(
    setup: Setup,
    key: PublicKey,
    hash: Point,
    secrets: VerifySecrets,
    witnesses: VerifySecrets,
) -> Option<VerifyAnswer> {
    match verify_challenge(
        setup,
        key,
        key_commitment(setup, key, witnesses.blind, witnesses.attributes),
        Group::G1.multiple(hash, witnesses.blind),
    ) {
        Some(c) => Some(
            VerifyAnswer {
                challenge: c,
                kappa: responses(witnesses.attributes, c, secrets.attributes),
                blind: response(witnesses.blind, c, secrets.blind),
            },
        ),
        None => None,
    }
}

/// The point `kappa`, brought to the form of a commitment to witnesses.
pub open spec fn recomputed_kappa(
    setup: Setup,
    key: PublicKey,
    kappa: Point,
    proof: VerifyAnswer,
) -> Point {
    Group::G2.sum(
        Group::G2.sum(
            Group::G2.sum(
                Group::G2.multiple(kappa, proof.challenge),
                Group::G2.multiple(setup.g2, proof.blind),
            ),
            Group::G2.multiple(key.alpha, field::reduce(1 - proof.challenge)),
        ),
        Group::G2.combination(key.beta, proof.kappa),
    )
}

/// The point `v`, brought to the form of a commitment to witnesses.
pub open spec fn recomputed_blind(hash: Point, v: Point, proof: VerifyAnswer) -> Point {
    Group::G1.sum(
        Group::G1.multiple(v, proof.challenge),
        Group::G1.multiple(hash, proof.blind),
    )
}

/// The proof for the verifier stands: its challenge is that of the recomputed commitments.
pub open spec fn verify_proof_holds(
    setup: Setup,
    key: PublicKey,
    hash: Point,
    kappa: Point,
    v: Point,
    proof: VerifyAnswer,
) -> bool {
    verify_challenge(
        setup,
        key,
        recomputed_kappa(setup, key, kappa, proof),
        recomputed_blind(hash, v, proof),
    ) == Some(proof.challenge)
}

fn compute_verify_challenge<T: RandomSource>(
    params: &Parameters<T>,
    verify_key: &VerifyKey,
    witness_commit_kappa: &G2Projective,
    witness_commit_blind: &G1Projective,
) -> (r: Option<Scalar>)
    ensures
        types::maybe_scalar(r) == verify_challenge(
            params.setup(),
            types::public_key(*verify_key),
            curve::g2_point(*witness_commit_kappa),
            curve::g1_point(*witness_commit_blind),
        ),
{
    let g1 = curve::g1_from_affine(&params.g1);
    let g2 = curve::g2_from_affine(&params.g2);
    let hs = params.attribute_generators();
    let mut points: Vec<G1Projective> = vec![g1, *witness_commit_blind];
    append_points(&mut points, &hs);
    let mut points_g2: Vec<G2Projective> = vec![g2, verify_key.0, *witness_commit_kappa];
    append_points(&mut points_g2, &verify_key.1);
    proof {
        let setup = params.setup();
        let key = types::public_key(*verify_key);
        assert(group::points(points@) =~= seq![
            setup.g1,
            curve::g1_point(*witness_commit_blind),
        ] + setup.hs);
        assert(group::points(points_g2@) =~= seq![
            setup.g2,
            key.alpha,
            curve::g2_point(*witness_commit_kappa),
        ] + key.beta);
    }
    hashing::compute_challenge(&points, &points_g2)
}

/// The point that commits to the attributes under a verification key.
pub fn compute_key_commitment<T: RandomSource>(
    params: &Parameters<T>,
    verify_key: &VerifyKey,
    blind: &Scalar,
    attributes: &Vec<Scalar>,
) -> (r: G2Projective)
    ensures
        curve::g2_point(r) == key_commitment(
            params.setup(),
            types::public_key(*verify_key),
            curve::scalar_value(*blind),
            group::values(attributes@),
        ),
{
    curve::g2_add(
        &curve::g2_add(&params.g2_multiple(blind), &verify_key.0),
        &group::combination(&verify_key.1, attributes),
    )
}

/// The proof for the verifier with given witnesses.
pub fn verify_proof_from_witnesses<T: RandomSource>(
    params: &Parameters<T>,
    verify_key: &VerifyKey,
    blind_commit_hash: &G1Projective,
    attributes: &Vec<Scalar>,
    blind: &Scalar,
    witness_kappa: &Vec<Scalar>,
    witness_blind: &Scalar,
) -> (r: Option<VerifyProof>)
    ensures
        types::maybe_verify_answer(r) == verify_proof(
            params.setup(),
            types::public_key(*verify_key),
            curve::g1_point(*blind_commit_hash),
            (VerifySecrets {
                attributes: group::values(attributes@),
                blind: curve::scalar_value(*blind),
            }),
            (VerifySecrets {
                attributes: group::values(witness_kappa@),
                blind: curve::scalar_value(*witness_blind),
            }),
        ),
{
    // Witness commit
    let witness_commit_kappa = compute_key_commitment(
        params,
        verify_key,
        witness_blind,
        witness_kappa,
    );
    let witness_commit_blind = curve::g1_multiply(blind_commit_hash, witness_blind);

    // Challenge
    let found = compute_verify_challenge(
        params,
        verify_key,
        &witness_commit_kappa,
        &witness_commit_blind,
    );

    // Responses
    match found {
        Some(challenge) => {
            let response_kappa = compute_responses(witness_kappa, &challenge, attributes);
            let response_blind = compute_response(witness_blind, &challenge, blind);
            Some((challenge, response_kappa, response_blind))
        },
        None => None,
    }
}

/// The witnesses of a proof for the verifier, in the order in which they are drawn.
pub open spec fn verify_witnesses(scalars: Seq<nat>) -> VerifySecrets {
    VerifySecrets { attributes: scalars.drop_last(), blind: scalars.last() }
}

/// The proof for the verifier with the witnesses that are drawn, where they can be.
pub open spec fn verify_proof_drawn(
    setup: Setup,
    key: PublicKey,
    hash: Point,
    secrets: VerifySecrets,
    outcome: Option<Seq<nat>>,
) -> Option<VerifyAnswer> {
    match outcome {
        Some(scalars) => verify_proof(setup, key, hash, secrets, verify_witnesses(scalars)),
        None => None,
    }
}

/// How many witnesses a proof for the verifier has, for `n` attributes.
pub open spec fn verify_witness_count(n: nat) -> nat {
    n + 1
}

/// The proof for the verifier, with random witnesses.
pub fn make_verify_proof<T: RandomSource>(
    params: &mut Parameters<T>,
    verify_key: &VerifyKey,
    blind_commit_hash: &G1Projective,
    attributes: &Vec<Scalar>,
    blind: &Scalar,
) -> (r: Option<VerifyProof>)
    requires
        attributes@.len() == verify_key.1@.len(),
    ensures
        final(params).setup() == old(params).setup(),
        *final(final(params).rng) == *final(old(params).rng),
        r matches Some(proof) ==> exists|witnesses: VerifySecrets| #[trigger]
            witnesses.drawn(attributes@.len()) && verify_proof(
                old(params).setup(),
                types::public_key(*verify_key),
                curve::g1_point(*blind_commit_hash),
                (VerifySecrets {
                    attributes: group::values(attributes@),
                    blind: curve::scalar_value(*blind),
                }),
                witnesses,
            ) == Some(types::verify_answer(proof)),
        exists|outcome: Option<Seq<nat>>| #[trigger]
            random::draws_scalars(
                *old(params).rng,
                verify_witness_count(attributes@.len()),
                outcome,
                *final(params).rng,
            ) && types::maybe_verify_answer(r) == verify_proof_drawn(
                old(params).setup(),
                types::public_key(*verify_key),
                curve::g1_point(*blind_commit_hash),
                (VerifySecrets {
                    attributes: group::values(attributes@),
                    blind: curve::scalar_value(*blind),
                }),
                outcome,
            ),
{
    let ghost n = attributes@.len();
    let ghost count = verify_witness_count(n);
    let ghost before = *params.rng;

    // Random witness
    let drawn_kappa = params.random_scalars(attributes.len());
    let ghost after_kappa = *params.rng;
    let witness_kappa = match drawn_kappa {
        Some(list) => list,
        None => {
            proof {
                random::lemma_draw_none(before, n, after_kappa, count);
            }
            return None;
        },
    };
    let ghost kappas = group::values(witness_kappa@);
    let drawn_blind = params.random_scalar();
    proof {
        random::lemma_draw_one(after_kappa, types::maybe_scalar(drawn_blind), *params.rng);
        random::lemma_draw_more(
            before,
            kappas,
            after_kappa,
            1,
            random::single(types::maybe_scalar(drawn_blind)),
            *params.rng,
        );
        assert(count == kappas.len() + 1);
    }
    let witness_blind = match drawn_blind {
        Some(s) => s,
        None => {
            return None;
        },
    };
    let ghost witnesses = VerifySecrets {
        attributes: group::values(witness_kappa@),
        blind: curve::scalar_value(witness_blind),
    };
    assert(verify_witnesses(kappas + seq![curve::scalar_value(witness_blind)]) =~= witnesses);
    assert(witnesses.drawn(attributes@.len()));
    verify_proof_from_witnesses(
        params,
        verify_key,
        blind_commit_hash,
        attributes,
        blind,
        &witness_kappa,
        &witness_blind,
    )
}

/// Whether the proof for the verifier stands. Where there is no challenge to compare with, it does
/// not.
pub fn verify_verify_proof<T: RandomSource>(
    params: &Parameters<T>,
    verify_key: &VerifyKey,
    blind_commit_hash: &G1Projective,
    kappa: &G2Projective,
    v: &G1Projective,
    proof: &VerifyProof,
) -> (r: bool)
    ensures
        r == verify_proof_holds(
            params.setup(),
            types::public_key(*verify_key),
            curve::g1_point(*blind_commit_hash),
            curve::g2_point(*kappa),
            curve::g1_point(*v),
            types::verify_answer(*proof),
        ),
{
    let challenge = &proof.0;
    let response_kappa = &proof.1;
    let response_blind = &proof.2;

    // Recompute witness commitments
    let rest = curve::scalar_subtract(&Scalar::one(), challenge);
    let witness_commit_kappa = curve::g2_add(
        &curve::g2_add(
            &curve::g2_add(
                &curve::g2_multiply(kappa, challenge),
                &params.g2_multiple(response_blind),
            ),
            &curve::g2_multiply(&verify_key.0, &rest),
        ),
        &group::combination(&verify_key.1, response_kappa),
    );
    let witness_commit_blind = curve::g1_add(
        &curve::g1_multiply(v, challenge),
        &curve::g1_multiply(blind_commit_hash, response_blind),
    );

    // Challenge
    let recomputed_challenge = compute_verify_challenge(
        params,
        verify_key,
        &witness_commit_kappa,
        &witness_commit_blind,
    );
    match recomputed_challenge {
        Some(recomputed) => curve::scalar_equal(challenge, &recomputed),
        None => false,
    }
}

} // verus!
