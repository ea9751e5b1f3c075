//! The messages of the scheme in numbers.
//!
//! Of points in the groups every message is again made of points in the groups and of scalars.
//! The laws of this module say which multiples of the generators and which scalars these are, and
//! in which order the random ones among them are drawn.
use vstd::prelude::*;

use crate::credential;
use crate::credential::ShowDraws;
use crate::curve::Point;
use crate::elgamal;
use crate::field;
use crate::group;
use crate::group::Group;
use crate::hashing;
use crate::interpolation;
use crate::keys;
use crate::keys::Polynomials;
use crate::parameters::Setup;
use crate::proofs;
use crate::proofs::{SignerSecrets, SignerStatement, VerifySecrets};
use crate::types;
use crate::types::{PointPair, PublicKey, Request, Shown, SignerAnswer, SigningKey, VerifyAnswer};

verus! {

/// The combination of given multiples of the generator.
proof fn lemma_combined(g: Group, points: Seq<Point>, logs: Seq<nat>, factors: Seq<nat>)
    requires
        points.len() == logs.len(),
        forall|i: int| 0 <= i < logs.len() ==> points[i] == Point::Member(#[trigger] logs[i]),
    ensures
        g.combination(points, factors) == group::member(interpolation::dot(logs, factors)),
        group::is_log(g.combination(points, factors), interpolation::dot(logs, factors)),
{
    let ls = group::ints(logs);
    assert forall|i: int| 0 <= i < points.len() implies group::is_log(#[trigger] points[i], ls[i]) by {
        assert(points[i] == Point::Member(logs[i]));
    }
    group::lemma_combination(g, points, ls, factors, group::ints(factors));
    group::lemma_inner_ints(logs, factors);
}

/// ElGamal keys, ciphertexts and plaintexts.
pub proof fn law_elgamal(setup: Setup, g: nat, d: nat, gamma: nat, hash: nat, m: nat, k: nat, a: nat, b: nat)
    requires
        setup.g1 == Point::Member(g),
    ensures
        elgamal::encryption_key(setup, d) == Point::Member(
            ((g * d) as int % (field::order() as int)) as nat,
        ),
        elgamal::ciphertext(setup, Point::Member(gamma), Point::Member(hash), m, k) == (PointPair {
            a: Point::Member(((g * k) as int % (field::order() as int)) as nat),
            b: Point::Member(((gamma * k + hash * m) as int % (field::order() as int)) as nat),
        }),
        elgamal::plaintext(d, PointPair { a: Point::Member(a), b: Point::Member(b) })
            == Point::Member(((b - a * d) % (field::order() as int)) as nat),
{
    let (gp, hp) = (Point::Member(gamma), Point::Member(hash));
    group::lemma_multiple(Group::G1, gp, gamma as int, k, k as int);
    group::lemma_multiple(Group::G1, hp, hash as int, m, m as int);
    group::lemma_sum(
        Group::G1,
        Group::G1.multiple(gp, k),
        gamma as int * k as int,
        Group::G1.multiple(hp, m),
        hash as int * m as int,
    );
    let (ap, bp) = (Point::Member(a), Point::Member(b));
    group::lemma_multiple(Group::G1, ap, a as int, d, d as int);
    group::lemma_difference(bp, b as int, Group::G1.multiple(ap, d), a as int * d as int);
}

/// The commitments: to attributes under the generators of the attributes, in the form of the two
/// components of ciphertexts, and to attributes under a verification key.
pub proof fn law_commitments(
    setup: Setup,
    g: nat,
    g2: nat,
    hs: Seq<nat>,
    statement: SignerStatement,
    gamma: nat,
    hash: nat,
    key: PublicKey,
    alpha: nat,
    beta: Seq<nat>,
    blind: nat,
    keys: Seq<nat>,
    attributes: Seq<nat>,
    i: int,
)
    requires
        setup.g1 == Point::Member(g),
        setup.g2 == Point::Member(g2),
        setup.hs.len() == hs.len(),
        forall|j: int| 0 <= j < hs.len() ==> setup.hs[j] == Point::Member(#[trigger] hs[j]),
        statement.gamma == Point::Member(gamma),
        statement.hash == Point::Member(hash),
        key.alpha == Point::Member(alpha),
        key.beta.len() == beta.len(),
        forall|j: int| 0 <= j < beta.len() ==> key.beta[j] == Point::Member(#[trigger] beta[j]),
    ensures
        proofs::attribute_commitment(setup, blind, attributes) == Point::Member(
            ((g * blind + interpolation::dot(hs, attributes)) % (field::order() as int)) as nat,
        ),
        proofs::key_commitment(setup, key, blind, attributes) == Point::Member(
            ((g2 * blind + alpha + interpolation::dot(beta, attributes)) % (
            field::order() as int)) as nat,
        ),
        proofs::first_commitments(setup, keys).len() == keys.len(),
        0 <= i < keys.len() ==> proofs::first_commitments(setup, keys)[i] == Point::Member(
            ((g * keys[i]) as int % (field::order() as int)) as nat,
        ),
        keys.len() <= attributes.len() ==> proofs::second_commitments(
            statement,
            keys,
            attributes,
        ).len() == keys.len(),
        attributes.len() <= keys.len() ==> proofs::second_commitments(
            statement,
            keys,
            attributes,
        ).len() == attributes.len(),
        0 <= i < keys.len() && i < attributes.len() ==> proofs::second_commitments(
            statement,
            keys,
            attributes,
        )[i] == Point::Member(
            ((gamma * keys[i] + hash * attributes[i]) as int % (field::order() as int)) as nat,
        ),
{
    lemma_combined(Group::G1, setup.hs, hs, attributes);
    group::lemma_multiple(Group::G1, setup.g1, g as int, blind, blind as int);
    group::lemma_sum(
        Group::G1,
        Group::G1.multiple(setup.g1, blind),
        g as int * blind as int,
        Group::G1.combination(setup.hs, attributes),
        interpolation::dot(hs, attributes),
    );
    lemma_combined(Group::G2, key.beta, beta, attributes);
    group::lemma_multiple(Group::G2, setup.g2, g2 as int, blind, blind as int);
    let first = Group::G2.sum(Group::G2.multiple(setup.g2, blind), key.alpha);
    group::lemma_sum(
        Group::G2,
        Group::G2.multiple(setup.g2, blind),
        g2 as int * blind as int,
        key.alpha,
        alpha as int,
    );
    group::lemma_sum(
        Group::G2,
        first,
        g2 as int * blind as int + alpha,
        Group::G2.combination(key.beta, attributes),
        interpolation::dot(beta, attributes),
    );
    if 0 <= i < keys.len() && i < attributes.len() {
        let (k, m) = (keys[i], attributes[i]);
        group::lemma_multiple(Group::G1, statement.gamma, gamma as int, k, k as int);
        group::lemma_multiple(Group::G1, statement.hash, hash as int, m, m as int);
        group::lemma_sum(
            Group::G1,
            Group::G1.multiple(statement.gamma, k),
            gamma as int * k as int,
            Group::G1.multiple(statement.hash, m),
            hash as int * m as int,
        );
    }
}

/// The response to a challenge is the witness less the challenge times the secret.
pub proof fn law_responses(witnesses: Seq<nat>, c: nat, secrets: Seq<nat>, w: nat, k: nat, i: int)
    ensures
        proofs::response(w, c, k) < field::order(),
        (proofs::response(w, c, k) - (w - c * k)) % (field::order() as int) == 0,
        witnesses.len() <= secrets.len() ==> proofs::responses(witnesses, c, secrets).len()
            == witnesses.len(),
        secrets.len() <= witnesses.len() ==> proofs::responses(witnesses, c, secrets).len()
            == secrets.len(),
        0 <= i < witnesses.len() && i < secrets.len() ==> (proofs::responses(
            witnesses,
            c,
            secrets,
        )[i] - (witnesses[i] - c * secrets[i])) % (field::order() as int) == 0 && proofs::responses(
            witnesses,
            c,
            secrets,
        )[i] < field::order(),
{
    field::lemma_reduce(w - c * k);
    field::law_congruent(proofs::response(w, c, k) as int, w - c * k);
    if 0 <= i < witnesses.len() && i < secrets.len() {
        field::lemma_reduce(witnesses[i] - c * secrets[i]);
        field::law_congruent(
            proofs::responses(witnesses, c, secrets)[i] as int,
            witnesses[i] - c * secrets[i],
        );
    }
}

/// A proof for the signer is made of the challenge for the commitments to the witnesses and of
/// the responses for all secrets, each with its own witness.
pub proof fn law_signer_proof(
    setup: Setup,
    statement: SignerStatement,
    secrets: SignerSecrets,
    witnesses: SignerSecrets,
    c: nat,
)
    ensures
        proofs::signer_proof(setup, statement, secrets, witnesses) is None
            <==> proofs::signer_challenge(
            setup,
            statement.commit,
            statement.hash,
            proofs::attribute_commitment(setup, witnesses.blind, witnesses.attributes),
            proofs::first_commitments(setup, witnesses.keys),
            proofs::second_commitments(statement, witnesses.keys, witnesses.attributes),
        ) is None,
        proofs::signer_challenge(
            setup,
            statement.commit,
            statement.hash,
            proofs::attribute_commitment(setup, witnesses.blind, witnesses.attributes),
            proofs::first_commitments(setup, witnesses.keys),
            proofs::second_commitments(statement, witnesses.keys, witnesses.attributes),
        ) == Some(c) ==> proofs::signer_proof(setup, statement, secrets, witnesses) == Some(
            SignerAnswer {
                challenge: c,
                blind: proofs::response(witnesses.blind, c, secrets.blind),
                keys: proofs::responses(witnesses.keys, c, secrets.keys),
                attributes: proofs::responses(witnesses.attributes, c, secrets.attributes),
            },
        ),
{
}

/// A proof for the verifier is made of the challenge for the commitments to the witnesses and of
/// the responses for all secrets, each with its own witness.
pub proof fn law_verify_proof(
    setup: Setup,
    key: PublicKey,
    hash: nat,
    secrets: VerifySecrets,
    witnesses: VerifySecrets,
    c: nat,
)
    ensures
        proofs::verify_proof(setup, key, Point::Member(hash), secrets, witnesses) is None
            <==> proofs::verify_challenge(
            setup,
            key,
            proofs::key_commitment(setup, key, witnesses.blind, witnesses.attributes),
            Point::Member(((hash * witnesses.blind) as int % (field::order() as int)) as nat),
        ) is None,
        proofs::verify_challenge(
            setup,
            key,
            proofs::key_commitment(setup, key, witnesses.blind, witnesses.attributes),
            Point::Member(((hash * witnesses.blind) as int % (field::order() as int)) as nat),
        ) == Some(c) ==> proofs::verify_proof(
            setup,
            key,
            Point::Member(hash),
            secrets,
            witnesses,
        ) == Some(
            VerifyAnswer {
                challenge: c,
                kappa: proofs::responses(witnesses.attributes, c, secrets.attributes),
                blind: proofs::response(witnesses.blind, c, secrets.blind),
            },
        ),
{
}

/// What one ciphertext gives together with the responses, in numbers.
pub proof fn lemma_recomputed_pair(
    setup: Setup,
    g: nat,
    statement: SignerStatement,
    gamma: nat,
    hash: nat,
    encrypted: Seq<PointPair>,
    a: Seq<nat>,
    b: Seq<nat>,
    proof: SignerAnswer,
    i: int,
)
    requires
        setup.g1 == Point::Member(g),
        statement.gamma == Point::Member(gamma),
        statement.hash == Point::Member(hash),
        encrypted.len() == proof.keys.len(),
        0 <= i < encrypted.len(),
        encrypted[i].a == Point::Member(a[i]),
        encrypted[i].b == Point::Member(b[i]),
    ensures
        proofs::recomputed_firsts(setup, encrypted, proof)[i] == group::member(
            a[i] as int * proof.challenge as int + g as int * proof.keys[i] as int,
        ),
        i < proof.attributes.len() ==> proofs::recomputed_seconds(statement, encrypted, proof)[i]
            == group::member(
            b[i] as int * proof.challenge as int + gamma as int * proof.keys[i] as int + hash as int
                * proof.attributes[i] as int,
        ),
{
    let c = proof.challenge;
    let ci = c as int;
    let k = proof.keys[i];
    group::lemma_multiple(Group::G1, encrypted[i].a, a[i] as int, c, ci);
    group::lemma_multiple(Group::G1, setup.g1, g as int, k, k as int);
    group::lemma_sum(
        Group::G1,
        Group::G1.multiple(encrypted[i].a, c),
        a[i] as int * ci,
        Group::G1.multiple(setup.g1, k),
        g as int * k as int,
    );
    if i < proof.attributes.len() {
        let m = proof.attributes[i];
        group::lemma_multiple(Group::G1, encrypted[i].b, b[i] as int, c, ci);
        group::lemma_multiple(Group::G1, statement.gamma, gamma as int, k, k as int);
        group::lemma_multiple(Group::G1, statement.hash, hash as int, m, m as int);
        let two = Group::G1.sum(
            Group::G1.multiple(encrypted[i].b, c),
            Group::G1.multiple(statement.gamma, k),
        );
        group::lemma_sum(
            Group::G1,
            Group::G1.multiple(encrypted[i].b, c),
            b[i] as int * ci,
            Group::G1.multiple(statement.gamma, k),
            gamma as int * k as int,
        );
        group::lemma_sum(
            Group::G1,
            two,
            b[i] as int * ci + gamma as int * k as int,
            Group::G1.multiple(statement.hash, m),
            hash as int * m as int,
        );
    }
}

/// What the commitment gives together with the responses, in numbers.
pub proof fn lemma_recomputed_commitment(
    setup: Setup,
    g: nat,
    hs: Seq<nat>,
    statement: SignerStatement,
    commit: nat,
    proof: SignerAnswer,
)
    requires
        setup.g1 == Point::Member(g),
        setup.hs.len() == hs.len(),
        forall|j: int| 0 <= j < hs.len() ==> setup.hs[j] == Point::Member(#[trigger] hs[j]),
        statement.commit == Point::Member(commit),
    ensures
        proofs::recomputed_commitment(setup, statement, proof) == group::member(
            commit as int * proof.challenge as int + g as int * proof.blind as int
                + interpolation::dot(hs, proof.attributes),
        ),
{
    let c = proof.challenge;
    let ci = c as int;
    lemma_combined(Group::G1, setup.hs, hs, proof.attributes);
    group::lemma_multiple(Group::G1, statement.commit, commit as int, c, ci);
    group::lemma_multiple(Group::G1, setup.g1, g as int, proof.blind, proof.blind as int);
    let two = Group::G1.sum(
        Group::G1.multiple(statement.commit, c),
        Group::G1.multiple(setup.g1, proof.blind),
    );
    group::lemma_sum(
        Group::G1,
        Group::G1.multiple(statement.commit, c),
        commit as int * ci,
        Group::G1.multiple(setup.g1, proof.blind),
        g as int * proof.blind as int,
    );
    group::lemma_sum(
        Group::G1,
        two,
        commit as int * ci + g as int * proof.blind as int,
        Group::G1.combination(setup.hs, proof.attributes),
        interpolation::dot(hs, proof.attributes),
    );
}

/// A proof for the signer stands exactly where its challenge is that of the points that every
/// component of every ciphertext, and the commitment, give together with the responses.
pub proof fn law_signer_accepts(
    setup: Setup,
    g: nat,
    hs: Seq<nat>,
    statement: SignerStatement,
    gamma: nat,
    commit: nat,
    hash: nat,
    encrypted: Seq<PointPair>,
    a: Seq<nat>,
    b: Seq<nat>,
    proof: SignerAnswer,
    firsts: Seq<Point>,
    seconds: Seq<Point>,
)
    requires
        setup.g1 == Point::Member(g),
        setup.hs.len() == hs.len(),
        forall|j: int| 0 <= j < hs.len() ==> setup.hs[j] == Point::Member(#[trigger] hs[j]),
        statement.gamma == Point::Member(gamma),
        statement.commit == Point::Member(commit),
        statement.hash == Point::Member(hash),
        encrypted.len() == proof.keys.len(),
        a.len() == encrypted.len(),
        b.len() == encrypted.len(),
        forall|i: int|
            0 <= i < encrypted.len() ==> (#[trigger] encrypted[i]).a == Point::Member(a[i])
                && encrypted[i].b == Point::Member(b[i]),
        firsts.len() == encrypted.len(),
        forall|i: int|
            0 <= i < encrypted.len() ==> #[trigger] firsts[i] == Point::Member(
                ((a[i] * proof.challenge + g * proof.keys[i]) as int % (
                field::order() as int)) as nat,
            ),
        encrypted.len() <= proof.attributes.len() ==> seconds.len() == encrypted.len(),
        proof.attributes.len() <= encrypted.len() ==> seconds.len() == proof.attributes.len(),
        forall|i: int|
            0 <= i < seconds.len() ==> #[trigger] seconds[i] == Point::Member(
                ((b[i] * proof.challenge + gamma * proof.keys[i] + hash * proof.attributes[i]) as int
                    % (field::order() as int)) as nat,
            ),
    ensures
        proofs::signer_proof_holds(setup, statement, encrypted, proof) <==> proofs::signer_challenge(
            setup,
            Point::Member(commit),
            Point::Member(hash),
            Point::Member(
                ((commit * proof.challenge + g * proof.blind + interpolation::dot(
                    hs,
                    proof.attributes,
                )) % (field::order() as int)) as nat,
            ),
            firsts,
            seconds,
        ) == Some(proof.challenge),
{
    assert forall|i: int| 0 <= i < firsts.len() implies firsts[i]
        == #[trigger] proofs::recomputed_firsts(setup, encrypted, proof)[i] by {
        assert(encrypted[i].a == Point::Member(a[i]));
        lemma_recomputed_pair(setup, g, statement, gamma, hash, encrypted, a, b, proof, i);
    }
    assert(firsts =~= proofs::recomputed_firsts(setup, encrypted, proof));
    assert forall|i: int| 0 <= i < seconds.len() implies seconds[i]
        == #[trigger] proofs::recomputed_seconds(statement, encrypted, proof)[i] by {
        assert(encrypted[i].a == Point::Member(a[i]));
        lemma_recomputed_pair(setup, g, statement, gamma, hash, encrypted, a, b, proof, i);
    }
    assert(seconds =~= proofs::recomputed_seconds(statement, encrypted, proof));
    lemma_recomputed_commitment(setup, g, hs, statement, commit, proof);
}

/// What the points `kappa` and `v` give together with the responses, in numbers.
pub proof fn lemma_recomputed(
    setup: Setup,
    g2: nat,
    key: PublicKey,
    alpha: nat,
    beta: Seq<nat>,
    hash: nat,
    kappa: nat,
    v: nat,
    proof: VerifyAnswer,
)
    requires
        setup.g2 == Point::Member(g2),
        key.alpha == Point::Member(alpha),
        key.beta.len() == beta.len(),
        forall|j: int| 0 <= j < beta.len() ==> key.beta[j] == Point::Member(#[trigger] beta[j]),
    ensures
        proofs::recomputed_kappa(setup, key, Point::Member(kappa), proof) == group::member(
            kappa as int * proof.challenge as int + g2 as int * proof.blind as int + alpha as int
                * (1 - proof.challenge) + interpolation::dot(beta, proof.kappa),
        ),
        proofs::recomputed_blind(Point::Member(hash), Point::Member(v), proof) == group::member(
            v as int * proof.challenge as int + hash as int * proof.blind as int,
        ),
{
    let c = proof.challenge;
    let ci = c as int;
    let r = proof.blind;
    let (hp, kp, vp) = (Point::Member(hash), Point::Member(kappa), Point::Member(v));
    group::lemma_multiple(Group::G2, kp, kappa as int, c, ci);
    group::lemma_multiple(Group::G2, setup.g2, g2 as int, r, r as int);
    let first = Group::G2.sum(Group::G2.multiple(kp, c), Group::G2.multiple(setup.g2, r));
    group::lemma_sum(
        Group::G2,
        Group::G2.multiple(kp, c),
        kappa as int * ci,
        Group::G2.multiple(setup.g2, r),
        g2 as int * r as int,
    );
    let rest = field::reduce(1 - c);
    field::lemma_reduce(1 - c);
    group::lemma_multiple(Group::G2, key.alpha, alpha as int, rest, 1 - c);
    let second = Group::G2.sum(first, Group::G2.multiple(key.alpha, rest));
    group::lemma_sum(
        Group::G2,
        first,
        kappa as int * ci + g2 as int * r as int,
        Group::G2.multiple(key.alpha, rest),
        alpha as int * (1 - c),
    );
    lemma_combined(Group::G2, key.beta, beta, proof.kappa);
    group::lemma_sum(
        Group::G2,
        second,
        kappa as int * ci + g2 as int * r as int + alpha as int * (1 - c),
        Group::G2.combination(key.beta, proof.kappa),
        interpolation::dot(beta, proof.kappa),
    );
    group::lemma_multiple(Group::G1, vp, v as int, c, ci);
    group::lemma_multiple(Group::G1, hp, hash as int, r, r as int);
    group::lemma_sum(
        Group::G1,
        Group::G1.multiple(vp, c),
        v as int * ci,
        Group::G1.multiple(hp, r),
        hash as int * r as int,
    );
}

/// A proof for the verifier stands exactly where its challenge is that of the points that `kappa`
/// and `v` give together with all the responses.
pub proof fn law_verify_accepts(
    setup: Setup,
    g2: nat,
    key: PublicKey,
    alpha: nat,
    beta: Seq<nat>,
    hash: nat,
    kappa: nat,
    v: nat,
    proof: VerifyAnswer,
)
    requires
        setup.g2 == Point::Member(g2),
        key.alpha == Point::Member(alpha),
        key.beta.len() == beta.len(),
        forall|j: int| 0 <= j < beta.len() ==> key.beta[j] == Point::Member(#[trigger] beta[j]),
    ensures
        proofs::verify_proof_holds(
            setup,
            key,
            Point::Member(hash),
            Point::Member(kappa),
            Point::Member(v),
            proof,
        ) <==> proofs::verify_challenge(
            setup,
            key,
            Point::Member(
                ((kappa * proof.challenge + g2 * proof.blind + alpha * (1 - proof.challenge)
                    + interpolation::dot(beta, proof.kappa)) % (field::order() as int)) as nat,
            ),
            Point::Member(
                ((v * proof.challenge + hash * proof.blind) as int % (
                field::order() as int)) as nat,
            ),
        ) == Some(proof.challenge),
{
    lemma_recomputed(setup, g2, key, alpha, beta, hash, kappa, v, proof);
}

/// The ciphertexts of a request are those of the attributes, each with its own key.
pub proof fn law_ciphertexts(
    setup: Setup,
    gamma: Point,
    hash: Point,
    attributes: Seq<nat>,
    keys: Seq<nat>,
    i: int,
)
    ensures
        attributes.len() <= keys.len() ==> credential::ciphertexts(
            setup,
            gamma,
            hash,
            attributes,
            keys,
        ).len() == attributes.len(),
        keys.len() <= attributes.len() ==> credential::ciphertexts(
            setup,
            gamma,
            hash,
            attributes,
            keys,
        ).len() == keys.len(),
        0 <= i < attributes.len() && i < keys.len() ==> credential::ciphertexts(
            setup,
            gamma,
            hash,
            attributes,
            keys,
        )[i] == elgamal::ciphertext(setup, gamma, hash, attributes[i], keys[i]),
{
}

/// A request holds the commitment to its attributes, their ciphertexts under the point to which
/// this commitment hashes, and a proof about these; and there is a request wherever there is such
/// a point and such a proof.
pub proof fn law_request(
    setup: Setup,
    gamma: Point,
    secrets: SignerSecrets,
    witnesses: SignerSecrets,
    commit: Point,
    hash: Point,
    proof: SignerAnswer,
)
    requires
        commit == proofs::attribute_commitment(setup, secrets.blind, secrets.attributes),
    ensures
        hashing::commit_hash(commit) is None ==> credential::request(
            setup,
            gamma,
            secrets,
            witnesses,
        ) is None,
        hashing::commit_hash(commit) == Some(hash) && proofs::signer_proof(
            setup,
            SignerStatement { gamma, commit, hash },
            secrets,
            witnesses,
        ) is None ==> credential::request(setup, gamma, secrets, witnesses) is None,
        hashing::commit_hash(commit) == Some(hash) && proofs::signer_proof(
            setup,
            SignerStatement { gamma, commit, hash },
            secrets,
            witnesses,
        ) == Some(proof) ==> credential::request(setup, gamma, secrets, witnesses) == Some(
            Request {
                commit,
                encrypted: credential::ciphertexts(
                    setup,
                    gamma,
                    hash,
                    secrets.attributes,
                    secrets.keys,
                ),
                proof,
            },
        ),
{
}

/// The encrypted signature of a key on ciphertexts, in numbers.
pub proof fn law_blind_signature(
    key: SigningKey,
    hash: nat,
    encrypted: Seq<PointPair>,
    a: Seq<nat>,
    b: Seq<nat>,
)
    requires
        a.len() == encrypted.len(),
        b.len() == encrypted.len(),
        forall|i: int|
            0 <= i < encrypted.len() ==> (#[trigger] encrypted[i]).a == Point::Member(a[i])
                && encrypted[i].b == Point::Member(b[i]),
    ensures
        credential::blind_signature(key, Point::Member(hash), encrypted) == (PointPair {
            a: Point::Member((interpolation::dot(a, key.y) % (field::order() as int)) as nat),
            b: Point::Member(
                ((hash * key.x + interpolation::dot(b, key.y)) % (field::order() as int)) as nat,
            ),
        }),
{
    let firsts = types::firsts(encrypted);
    let seconds = types::seconds(encrypted);
    assert forall|i: int| 0 <= i < a.len() implies firsts[i] == Point::Member(#[trigger] a[i]) by {
        assert(encrypted[i].a == Point::Member(a[i]));
    }
    assert forall|i: int| 0 <= i < b.len() implies seconds[i] == Point::Member(#[trigger] b[i]) by {
        assert(encrypted[i].a == Point::Member(a[i]));
    }
    lemma_combined(Group::G1, firsts, a, key.y);
    lemma_combined(Group::G1, seconds, b, key.y);
    let hp = Point::Member(hash);
    group::lemma_multiple(Group::G1, hp, hash as int, key.x, key.x as int);
    group::lemma_sum(
        Group::G1,
        Group::G1.multiple(hp, key.x),
        hash as int * key.x as int,
        Group::G1.combination(seconds, key.y),
        interpolation::dot(b, key.y),
    );
}

/// A request stands where its own proof stands for its own commitment and ciphertexts.
pub proof fn law_request_judged(setup: Setup, gamma: Point, hash: Point, lambda: Request)
    ensures
        credential::request_holds(setup, gamma, hash, lambda) <==> proofs::signer_proof_holds(
            setup,
            SignerStatement { gamma, commit: lambda.commit, hash },
            lambda.encrypted,
            lambda.proof,
        ),
{
}

/// The keys of the authorities: the values of the polynomials at the index for every attribute,
/// and the constant terms for the key that nobody holds.
pub proof fn law_shares(polynomials: Polynomials, index: nat, n: nat, i: int, j: int)
    ensures
        polynomials.signing_share(index).x == interpolation::evaluate(polynomials.v, index),
        polynomials.signing_share(index).y.len() == polynomials.w.len(),
        0 <= j < polynomials.w.len() ==> polynomials.signing_share(index).y[j]
            == interpolation::evaluate(polynomials.w[j], index),
        polynomials.signing_shares(n).len() == n,
        0 <= i < n ==> polynomials.signing_shares(n)[i] == polynomials.signing_share(
            (i + 1) as nat,
        ),
        polynomials.master_key().x == interpolation::constant_term(polynomials.v),
        polynomials.master_key().y.len() == polynomials.w.len(),
        0 <= j < polynomials.w.len() ==> polynomials.master_key().y[j]
            == interpolation::constant_term(polynomials.w[j]),
{
}

/// The verification key of a signing key holds the multiple of the generator by each of its
/// scalars.
pub proof fn law_public_part(setup: Setup, g2: nat, key: SigningKey, keys: Seq<SigningKey>, i: int, j: int)
    requires
        setup.g2 == Point::Member(g2),
    ensures
        keys::public_part(setup, key).alpha == Point::Member(
            ((g2 * key.x) as int % (field::order() as int)) as nat,
        ),
        keys::public_part(setup, key).beta.len() == key.y.len(),
        0 <= j < key.y.len() ==> keys::public_part(setup, key).beta[j] == Point::Member(
            ((g2 * key.y[j]) as int % (field::order() as int)) as nat,
        ),
        keys::public_parts(setup, keys).len() == keys.len(),
        0 <= i < keys.len() ==> keys::public_parts(setup, keys)[i] == keys::public_part(
            setup,
            keys[i],
        ),
{
}

/// The combination of verification keys, in numbers: that of their first points, and for each
/// attribute that of their points for the attribute, by the same weights.
pub proof fn law_combined_key(
    list: Seq<PublicKey>,
    alphas: Seq<nat>,
    betas: Seq<nat>,
    j: int,
    weights: Seq<nat>,
)
    requires
        list.len() > 0,
        alphas.len() == list.len(),
        betas.len() == list.len(),
        0 <= j < list[0].beta.len(),
        forall|i: int| 0 <= i < list.len() ==> list[i].alpha == Point::Member(#[trigger] alphas[i]),
        forall|i: int|
            0 <= i < list.len() ==> list[i].beta[j] == Point::Member(#[trigger] betas[i]),
    ensures
        keys::combined_key(list, weights).alpha == Point::Member(
            (interpolation::dot(alphas, weights) % (field::order() as int)) as nat,
        ),
        keys::combined_key(list, weights).beta.len() == list[0].beta.len(),
        keys::combined_key(list, weights).beta[j] == Point::Member(
            (interpolation::dot(betas, weights) % (field::order() as int)) as nat,
        ),
{
    lemma_combined(Group::G2, keys::alphas(list), alphas, weights);
    lemma_combined(Group::G2, keys::betas(list, j), betas, weights);
}

/// A shown credential holds the signature blinded by `blind_prime`, the commitment to the
/// attributes under the verification key, the multiple of the blinded hash by the blinding factor,
/// and a proof about these.
pub proof fn law_shown(
    setup: Setup,
    key: PublicKey,
    hash: nat,
    sigma: nat,
    attributes: Seq<nat>,
    draws: ShowDraws,
    blinded: nat,
    proof: VerifyAnswer,
)
    requires
        blinded == (hash * draws.blind_prime) % field::order(),
    ensures
        proofs::verify_proof(
            setup,
            key,
            Point::Member(blinded),
            VerifySecrets { attributes, blind: draws.blind },
            draws.witnesses,
        ) is None ==> credential::shown_credential(
            setup,
            key,
            PointPair { a: Point::Member(hash), b: Point::Member(sigma) },
            attributes,
            draws,
        ) is None,
        proofs::verify_proof(
            setup,
            key,
            Point::Member(blinded),
            VerifySecrets { attributes, blind: draws.blind },
            draws.witnesses,
        ) == Some(proof) ==> credential::shown_credential(
            setup,
            key,
            PointPair { a: Point::Member(hash), b: Point::Member(sigma) },
            attributes,
            draws,
        ) == Some(
            Shown {
                kappa: proofs::key_commitment(setup, key, draws.blind, attributes),
                v: Point::Member(
                    ((blinded * draws.blind) as int % (field::order() as int)) as nat,
                ),
                signature: PointPair {
                    a: Point::Member(blinded),
                    b: Point::Member(
                        ((sigma * draws.blind_prime) as int % (field::order() as int)) as nat,
                    ),
                },
                proof,
            },
        ),
{
    field::lemma_order_large();
    field::lemma_reduce((hash * draws.blind_prime) as int);
}

/// A shown credential is judged by its own proof about its own points, and by its pairings: they
/// agree where the product of the factors of the blinded hash and of `kappa` is that of the
/// factors of the blinded signature and `v` together and of the generator.
pub proof fn law_judged(
    setup: Setup,
    g2: nat,
    key: PublicKey,
    hash: nat,
    sigma: nat,
    kappa: nat,
    v: nat,
    proof: VerifyAnswer,
    shown: Shown,
)
    requires
        setup.g2 == Point::Member(g2),
        shown == (Shown {
            kappa: Point::Member(kappa),
            v: Point::Member(v),
            signature: PointPair { a: Point::Member(hash), b: Point::Member(sigma) },
            proof,
        }),
    ensures
        credential::shown_holds(setup, key, shown) <==> proofs::verify_proof_holds(
            setup,
            key,
            Point::Member(hash),
            Point::Member(kappa),
            Point::Member(v),
            proof,
        ),
        credential::in_groups(setup, shown),
        credential::pairings_agree(setup, shown) <==> (hash * kappa - (sigma + v) * g2) % (
        field::order() as int) == 0,
{
    let (s, vi, gi) = (sigma as int, v as int, g2 as int);
    let sum = Group::G1.sum(shown.signature.b, shown.v);
    group::lemma_sum(Group::G1, shown.signature.b, s, shown.v, vi);
    field::lemma_multiply(sum->Member_0 as int, s + vi, gi, gi);
    field::lemma_reduce((hash * kappa) as int);
    field::lemma_reduce((sum->Member_0 * g2) as int);
    field::law_congruent((hash * kappa) as int, (s + vi) * gi);
}

/// The exponent of a pairing is the product of the factors of the points.
pub proof fn law_pairing_exponent(i: nat, j: nat)
    ensures
        credential::pairing_exponent(Point::Member(i), Point::Member(j)) == ((i * j) as int % (
        field::order() as int)) as nat,
{
}

/// Pairings are computed exactly where all the points of which they are computed are in the
/// groups.
pub proof fn law_in_groups(setup: Setup, shown: Shown)
    ensures
        credential::in_groups(setup, shown) <==> setup.g2 is Member && shown.kappa is Member
            && shown.signature.a is Member && Group::G1.sum(shown.signature.b, shown.v) is Member,
{
}

// The order of the draws.

/// The witnesses of a proof for the signer are drawn in the order blinding factor, keys,
/// attributes, and each is drawn for itself.
pub proof fn law_signer_draws(
    setup: Setup,
    statement: SignerStatement,
    secrets: SignerSecrets,
    blind: nat,
    keys: Seq<nat>,
    attributes: Seq<nat>,
)
    requires
        keys.len() == attributes.len(),
    ensures
        proofs::signer_witness_count(keys.len()) == 1 + keys.len() + attributes.len(),
        proofs::signer_proof_drawn(
            setup,
            statement,
            secrets,
            keys.len(),
            Some(seq![blind] + keys + attributes),
        ) == proofs::signer_proof(
            setup,
            statement,
            secrets,
            SignerSecrets { blind, keys, attributes },
        ),
        proofs::signer_proof_drawn(setup, statement, secrets, keys.len(), None) is None,
{
    let scalars = seq![blind] + keys + attributes;
    assert(proofs::signer_witnesses(scalars, keys.len()) =~= SignerSecrets {
        blind,
        keys,
        attributes,
    });
}

/// The witnesses of a proof for the verifier are drawn in the order attributes, blinding factor,
/// and each is drawn for itself.
pub proof fn law_verify_draws(
    setup: Setup,
    key: PublicKey,
    hash: Point,
    secrets: VerifySecrets,
    attributes: Seq<nat>,
    blind: nat,
)
    ensures
        proofs::verify_witness_count(attributes.len()) == attributes.len() + 1,
        proofs::verify_proof_drawn(setup, key, hash, secrets, Some(attributes.push(blind)))
            == proofs::verify_proof(
            setup,
            key,
            hash,
            secrets,
            VerifySecrets { attributes, blind },
        ),
        proofs::verify_proof_drawn(setup, key, hash, secrets, None) is None,
{
    assert(proofs::verify_witnesses(attributes.push(blind)) =~= VerifySecrets {
        attributes,
        blind,
    });
}

/// The scalars of a request are drawn in the order blinding factor, keys, witnesses, and each is
/// drawn for itself.
pub proof fn law_request_draws(
    setup: Setup,
    gamma: Point,
    attributes: Seq<nat>,
    blind: nat,
    keys: Seq<nat>,
    witness_blind: nat,
    witness_keys: Seq<nat>,
    witness_attributes: Seq<nat>,
)
    requires
        keys.len() == attributes.len(),
        witness_keys.len() == attributes.len(),
        witness_attributes.len() == attributes.len(),
    ensures
        credential::request_draw_count(attributes.len()) == 1 + keys.len() + 1 + witness_keys.len()
            + witness_attributes.len(),
        credential::request_drawn(
            setup,
            gamma,
            attributes,
            Some(
                seq![blind] + keys + seq![witness_blind] + witness_keys + witness_attributes,
            ),
        ) == credential::request(
            setup,
            gamma,
            SignerSecrets { blind, keys, attributes },
            SignerSecrets {
                blind: witness_blind,
                keys: witness_keys,
                attributes: witness_attributes,
            },
        ),
        credential::request_drawn(setup, gamma, attributes, None) is None,
{
    let n = attributes.len() as int;
    let scalars = seq![blind] + keys + seq![witness_blind] + witness_keys + witness_attributes;
    let rest = seq![witness_blind] + witness_keys + witness_attributes;
    assert(scalars.subrange(1, 1 + n) =~= keys);
    assert(scalars.subrange(1 + n, scalars.len() as int) =~= rest);
    assert(proofs::signer_witnesses(rest, attributes.len()) =~= SignerSecrets {
        blind: witness_blind,
        keys: witness_keys,
        attributes: witness_attributes,
    });
}

/// The scalars of a shown credential are drawn in the order `blind_prime`, blinding factor,
/// witnesses, and each is drawn for itself.
pub proof fn law_show_draws(
    setup: Setup,
    key: PublicKey,
    signature: PointPair,
    attributes: Seq<nat>,
    blind_prime: nat,
    blind: nat,
    witness_kappa: Seq<nat>,
    witness_blind: nat,
)
    requires
        witness_kappa.len() == attributes.len(),
    ensures
        credential::show_draw_count(attributes.len()) == 2 + witness_kappa.len() + 1,
        credential::shown_drawn(
            setup,
            key,
            signature,
            attributes,
            Some(seq![blind_prime, blind] + witness_kappa + seq![witness_blind]),
        ) == credential::shown_credential(
            setup,
            key,
            signature,
            attributes,
            ShowDraws {
                blind_prime,
                blind,
                witnesses: VerifySecrets { attributes: witness_kappa, blind: witness_blind },
            },
        ),
        credential::shown_drawn(setup, key, signature, attributes, None) is None,
{
    let scalars = seq![blind_prime, blind] + witness_kappa + seq![witness_blind];
    let rest = scalars.subrange(2, scalars.len() as int);
    assert(rest =~= witness_kappa + seq![witness_blind]);
    assert(proofs::verify_witnesses(rest) =~= VerifySecrets {
        attributes: witness_kappa,
        blind: witness_blind,
    });
}

/// The coefficients of the keys are drawn polynomial by polynomial, from the lowest degree on,
/// and each is drawn for itself.
pub proof fn law_key_draws(
    scalars: Seq<nat>,
    threshold: nat,
    attributes_size: nat,
    number_authorities: nat,
    j: int,
    i: int,
)
    requires
        scalars.len() == threshold * (1 + attributes_size),
        0 <= j < attributes_size,
        0 <= i < threshold,
    ensures
        keys::key_draw_count(threshold, attributes_size) == threshold * (1 + attributes_size),
        keys::polynomials_from(scalars, threshold, attributes_size).v.len() == threshold,
        keys::polynomials_from(scalars, threshold, attributes_size).v[i] == scalars[i],
        keys::polynomials_from(scalars, threshold, attributes_size).w.len() == attributes_size,
        keys::polynomials_from(scalars, threshold, attributes_size).w[j].len() == threshold,
        keys::polynomials_from(scalars, threshold, attributes_size).w[j][i] == scalars[threshold * (
        1 + j) + i],
        keys::keys_drawn(threshold, attributes_size, number_authorities, Some(scalars)) == Some(
            keys::polynomials_from(scalars, threshold, attributes_size).signing_shares(
                number_authorities,
            ),
        ),
        keys::keys_drawn(threshold, attributes_size, number_authorities, None) is None,
{
    let t = threshold as int;
    let n = attributes_size as int;
    assert(t <= t * (1 + n) && t * (2 + j) == t * (1 + j) + t && 0 <= t * (1 + j) && t * (2 + j)
        <= t * (1 + n)) by (nonlinear_arith)
        requires
            t > 0,
            0 <= j < n,
    ;
}

/// What is drawn for proofs, requests, shown credentials and keys has the right length and is
/// made of scalars.
pub proof fn law_drawn(
    signer: SignerSecrets,
    verify: VerifySecrets,
    show: ShowDraws,
    polynomials: Polynomials,
    threshold: nat,
    n: nat,
    i: int,
    j: int,
)
    ensures
        signer.drawn(n) ==> signer.blind < field::order() && signer.keys.len() == n
            && signer.attributes.len() == n,
        signer.drawn(n) && 0 <= i < n ==> signer.keys[i] < field::order() && signer.attributes[i]
            < field::order(),
        verify.drawn(n) ==> verify.attributes.len() == n && verify.blind < field::order(),
        verify.drawn(n) && 0 <= i < n ==> verify.attributes[i] < field::order(),
        show.drawn(n) ==> show.blind_prime < field::order() && show.blind < field::order()
            && show.witnesses.drawn(n),
        polynomials.drawn(threshold, n) ==> polynomials.v.len() == threshold && polynomials.w.len()
            == n,
        polynomials.drawn(threshold, n) && 0 <= i < threshold ==> polynomials.v[i]
            < field::order(),
        polynomials.drawn(threshold, n) && 0 <= j < n ==> polynomials.w[j].len() == threshold,
        polynomials.drawn(threshold, n) && 0 <= j < n && 0 <= i < threshold
            ==> polynomials.w[j][i] < field::order(),
{
}

// Points that need not be in the groups.

/// What is done to any points at all: keys, ciphertexts and plaintexts.
pub proof fn law_elgamal_points(
    setup: Setup,
    gamma: Point,
    hash: Point,
    d: nat,
    m: nat,
    k: nat,
    encrypted: PointPair,
)
    ensures
        elgamal::encryption_key(setup, d) == Group::G1.multiple(setup.g1, d),
        elgamal::ciphertext(setup, gamma, hash, m, k).a == Group::G1.multiple(setup.g1, k),
        elgamal::ciphertext(setup, gamma, hash, m, k).b == Group::G1.sum(
            Group::G1.multiple(gamma, k),
            Group::G1.multiple(hash, m),
        ),
        elgamal::plaintext(d, encrypted) == group::difference(
            encrypted.b,
            Group::G1.multiple(encrypted.a, d),
        ),
{
}

/// What is done to any points at all: commitments.
pub proof fn law_commitment_points(
    setup: Setup,
    statement: SignerStatement,
    key: PublicKey,
    blind: nat,
    keys: Seq<nat>,
    attributes: Seq<nat>,
    i: int,
)
    ensures
        proofs::attribute_commitment(setup, blind, attributes) == Group::G1.sum(
            Group::G1.multiple(setup.g1, blind),
            Group::G1.combination(setup.hs, attributes),
        ),
        proofs::key_commitment(setup, key, blind, attributes) == Group::G2.sum(
            Group::G2.sum(Group::G2.multiple(setup.g2, blind), key.alpha),
            Group::G2.combination(key.beta, attributes),
        ),
        0 <= i < keys.len() ==> proofs::first_commitments(setup, keys)[i] == Group::G1.multiple(
            setup.g1,
            keys[i],
        ),
        0 <= i < keys.len() && i < attributes.len() ==> proofs::second_commitments(
            statement,
            keys,
            attributes,
        )[i] == Group::G1.sum(
            Group::G1.multiple(statement.gamma, keys[i]),
            Group::G1.multiple(statement.hash, attributes[i]),
        ),
{
}

/// What is done to any points at all: the proof for the signer.
pub proof fn law_signer_points(
    setup: Setup,
    statement: SignerStatement,
    encrypted: Seq<PointPair>,
    proof: SignerAnswer,
    firsts: Seq<Point>,
    seconds: Seq<Point>,
)
    requires
        encrypted.len() == proof.keys.len(),
        firsts.len() == encrypted.len(),
        forall|i: int|
            0 <= i < firsts.len() ==> #[trigger] firsts[i] == Group::G1.sum(
                Group::G1.multiple(encrypted[i].a, proof.challenge),
                Group::G1.multiple(setup.g1, proof.keys[i]),
            ),
        encrypted.len() <= proof.attributes.len() ==> seconds.len() == encrypted.len(),
        proof.attributes.len() <= encrypted.len() ==> seconds.len() == proof.attributes.len(),
        forall|i: int|
            0 <= i < seconds.len() ==> #[trigger] seconds[i] == Group::G1.sum(
                Group::G1.sum(
                    Group::G1.multiple(encrypted[i].b, proof.challenge),
                    Group::G1.multiple(statement.gamma, proof.keys[i]),
                ),
                Group::G1.multiple(statement.hash, proof.attributes[i]),
            ),
    ensures
        proofs::signer_proof_holds(setup, statement, encrypted, proof) <==> proofs::signer_challenge(
            setup,
            statement.commit,
            statement.hash,
            Group::G1.sum(
                Group::G1.sum(
                    Group::G1.multiple(statement.commit, proof.challenge),
                    Group::G1.multiple(setup.g1, proof.blind),
                ),
                Group::G1.combination(setup.hs, proof.attributes),
            ),
            firsts,
            seconds,
        ) == Some(proof.challenge),
{
    assert(firsts =~= proofs::recomputed_firsts(setup, encrypted, proof));
    assert(seconds =~= proofs::recomputed_seconds(statement, encrypted, proof));
}

/// What is done to any points at all: the proof for the verifier.
pub proof fn law_verify_points(
    setup: Setup,
    key: PublicKey,
    hash: Point,
    kappa: Point,
    v: Point,
    proof: VerifyAnswer,
    rest: nat,
    secrets: VerifySecrets,
    witnesses: VerifySecrets,
    c: nat,
)
    requires
        rest < field::order(),
        (rest - (1 - proof.challenge)) % (field::order() as int) == 0,
    ensures
        proofs::verify_proof_holds(setup, key, hash, kappa, v, proof) <==> proofs::verify_challenge(
            setup,
            key,
            Group::G2.sum(
                Group::G2.sum(
                    Group::G2.sum(
                        Group::G2.multiple(kappa, proof.challenge),
                        Group::G2.multiple(setup.g2, proof.blind),
                    ),
                    Group::G2.multiple(key.alpha, rest),
                ),
                Group::G2.combination(key.beta, proof.kappa),
            ),
            Group::G1.sum(
                Group::G1.multiple(v, proof.challenge),
                Group::G1.multiple(hash, proof.blind),
            ),
        ) == Some(proof.challenge),
        proofs::verify_proof(setup, key, hash, secrets, witnesses) is None
            <==> proofs::verify_challenge(
            setup,
            key,
            proofs::key_commitment(setup, key, witnesses.blind, witnesses.attributes),
            Group::G1.multiple(hash, witnesses.blind),
        ) is None,
        proofs::verify_challenge(
            setup,
            key,
            proofs::key_commitment(setup, key, witnesses.blind, witnesses.attributes),
            Group::G1.multiple(hash, witnesses.blind),
        ) == Some(c) ==> proofs::verify_proof(setup, key, hash, secrets, witnesses) == Some(
            VerifyAnswer {
                challenge: c,
                kappa: proofs::responses(witnesses.attributes, c, secrets.attributes),
                blind: proofs::response(witnesses.blind, c, secrets.blind),
            },
        ),
{
    field::law_congruent(rest as int, 1 - proof.challenge);
    field::lemma_reduce_small(rest);
}

/// What is done to any points at all: signatures and verification keys.
pub proof fn law_signature_points(
    setup: Setup,
    key: SigningKey,
    hash: Point,
    encrypted: Seq<PointPair>,
    firsts: Seq<Point>,
    seconds: Seq<Point>,
    list: Seq<PublicKey>,
    alphas: Seq<Point>,
    betas: Seq<Point>,
    weights: Seq<nat>,
    j: int,
)
    requires
        firsts.len() == encrypted.len(),
        seconds.len() == encrypted.len(),
        forall|i: int| 0 <= i < encrypted.len() ==> #[trigger] firsts[i] == encrypted[i].a,
        forall|i: int| 0 <= i < encrypted.len() ==> #[trigger] seconds[i] == encrypted[i].b,
        alphas.len() == list.len(),
        betas.len() == list.len(),
        forall|i: int| 0 <= i < list.len() ==> #[trigger] alphas[i] == list[i].alpha,
        forall|i: int| 0 <= i < list.len() ==> #[trigger] betas[i] == list[i].beta[j],
    ensures
        credential::blind_signature(key, hash, encrypted).a == Group::G1.combination(
            firsts,
            key.y,
        ),
        credential::blind_signature(key, hash, encrypted).b == Group::G1.sum(
            Group::G1.multiple(hash, key.x),
            Group::G1.combination(seconds, key.y),
        ),
        keys::public_part(setup, key).alpha == Group::G2.multiple(setup.g2, key.x),
        0 <= j < key.y.len() ==> keys::public_part(setup, key).beta[j] == Group::G2.multiple(
            setup.g2,
            key.y[j],
        ),
        keys::combined_key(list, weights).alpha == Group::G2.combination(alphas, weights),
        0 <= j < list[0].beta.len() ==> keys::combined_key(list, weights).beta[j]
            == Group::G2.combination(betas, weights),
{
    assert(firsts =~= types::firsts(encrypted));
    assert(seconds =~= types::seconds(encrypted));
    assert(alphas =~= keys::alphas(list));
    assert(betas =~= keys::betas(list, j));
}

/// What is done to any points at all: shown credentials.
pub proof fn law_shown_points(
    setup: Setup,
    key: PublicKey,
    signature: PointPair,
    attributes: Seq<nat>,
    draws: ShowDraws,
    shown: Shown,
)
    ensures
        credential::shown_credential(setup, key, signature, attributes, draws) is None
            <==> proofs::verify_proof(
            setup,
            key,
            Group::G1.multiple(signature.a, draws.blind_prime),
            VerifySecrets { attributes, blind: draws.blind },
            draws.witnesses,
        ) is None,
        credential::shown_credential(setup, key, signature, attributes, draws) == Some(shown) ==> {
            &&& shown.signature.a == Group::G1.multiple(signature.a, draws.blind_prime)
            &&& shown.signature.b == Group::G1.multiple(signature.b, draws.blind_prime)
            &&& shown.kappa == proofs::key_commitment(setup, key, draws.blind, attributes)
            &&& shown.v == Group::G1.multiple(shown.signature.a, draws.blind)
            &&& proofs::verify_proof(
                setup,
                key,
                shown.signature.a,
                VerifySecrets { attributes, blind: draws.blind },
                draws.witnesses,
            ) == Some(shown.proof)
        },
        credential::shown_holds(setup, key, shown) <==> proofs::verify_proof_holds(
            setup,
            key,
            shown.signature.a,
            shown.kappa,
            shown.v,
            shown.proof,
        ),
{
}

/// The pairings of points in the groups agree where the products of their factors do.
pub proof fn law_pairings_agree(
    setup: Setup,
    shown: Shown,
    g2: nat,
    hash: nat,
    kappa: nat,
    sum: nat,
)
    requires
        setup.g2 == Point::Member(g2),
        shown.signature.a == Point::Member(hash),
        shown.kappa == Point::Member(kappa),
        Group::G1.sum(shown.signature.b, shown.v) == Point::Member(sum),
    ensures
        credential::pairings_agree(setup, shown) <==> (hash * kappa - sum * g2) % (
        field::order() as int) == 0,
{
    field::lemma_reduce((hash * kappa) as int);
    field::lemma_reduce((sum * g2) as int);
    field::law_congruent((hash * kappa) as int, (sum * g2) as int);
}

/// What is drawn for a request is for the attributes of the request.
pub proof fn law_request_secrets(
    attributes: Seq<nat>,
    secrets: SignerSecrets,
    witnesses: SignerSecrets,
    i: int,
)
    ensures
        credential::request_draws(attributes, secrets, witnesses) ==> {
            &&& secrets.attributes == attributes
            &&& secrets.keys.len() == attributes.len()
            &&& secrets.blind < field::order()
            &&& witnesses.drawn(attributes.len())
        },
        credential::request_draws(attributes, secrets, witnesses) && 0 <= i < attributes.len()
            ==> secrets.keys[i] < field::order(),
{
}

} // verus!
