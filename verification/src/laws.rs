//! What holds of the scheme as a whole.
use vstd::prelude::*;

use crate::credential;
use crate::credential::ShowDraws;
use crate::curve;
use crate::curve::Point;
use crate::elgamal;
use crate::field;
use crate::group;
use crate::group::Group;
use crate::hashing;
use crate::interpolation;
use crate::keys;
use crate::keys::Polynomials;
use crate::parameters::Setup;
use crate::proofs;
use crate::proofs::{SignerSecrets, SignerStatement, VerifySecrets};
use crate::types;
use crate::types::{PointPair, PublicKey, Shown, SignerAnswer, SigningKey};
use crate::units;

verus! {

/// All the points are in the group.
pub open spec fn all_members(points: Seq<Point>) -> bool {
    forall|i: int| 0 <= i < points.len() ==> (#[trigger] points[i]) is Member
}

/// The factors by which points in the group are multiples of the generator.
pub open spec fn logs(points: Seq<Point>) -> Seq<int> {
    Seq::new(points.len(), |i: int| points[i]->Member_0 as int)
}

proof fn lemma_logs(points: Seq<Point>)
    requires
        all_members(points),
    ensures
        group::are_logs(points, logs(points)),
{
}

proof fn lemma_ints(numbers: Seq<nat>)
    ensures
        group::all_congruent(numbers, group::ints(numbers)),
{
}

/// ElGamal decryption undoes encryption: what the private key makes of the ciphertext of an
/// attribute is the multiple of the point by the attribute.
pub proof fn law_decrypt_encrypt(setup: Setup, hash: Point, d: nat, attribute: nat, key: nat)
    requires
        setup.wf(),
        hash is Member,
    ensures
        elgamal::plaintext(
            d,
            elgamal::ciphertext(
                setup,
                elgamal::encryption_key(setup, d),
                hash,
                attribute,
                key,
            ),
        ) == Group::G1.multiple(hash, attribute),
{
    let h = hash->Member_0 as int;
    let di = d as int;
    let k = key as int;
    let m = attribute as int;
    let gamma = elgamal::encryption_key(setup, d);
    let encrypted = elgamal::ciphertext(setup, gamma, hash, attribute, key);
    group::lemma_multiple(Group::G1, setup.g1, 1, d, di);
    group::lemma_multiple(Group::G1, setup.g1, 1, key, k);
    group::lemma_multiple(Group::G1, gamma, 1 * di, key, k);
    group::lemma_multiple(Group::G1, hash, h, attribute, m);
    group::lemma_sum(
        Group::G1,
        Group::G1.multiple(gamma, key),
        1 * di * k,
        Group::G1.multiple(hash, attribute),
        h * m,
    );
    group::lemma_multiple(Group::G1, encrypted.a, 1 * k, d, di);
    group::lemma_difference(
        encrypted.b,
        1 * di * k + h * m,
        Group::G1.multiple(encrypted.a, d),
        1 * k * di,
    );
    assert((1 * di * k + h * m) - 1 * k * di == h * m) by (nonlinear_arith);
}

/// The response makes up for the secret: the multiple by the challenge of a multiple by the
/// secret, and the multiple by the response, give the multiple by the witness.
proof fn lemma_response(x: int, w: nat, c: nat, k: nat)
    ensures
        field::congruent(proofs::response(w, c, k) as int, w - c * k),
        x * k * c + x * (w - c * k) == x * w,
{
    field::lemma_reduce(w - c * k);
    let wi = w as int;
    let ci = c as int;
    let ki = k as int;
    assert(x * ki * ci + x * (wi - ci * ki) == x * wi) by (nonlinear_arith);
}

/// The responses as integers that need not be reduced.
spec fn raw_responses(witnesses: Seq<nat>, c: nat, secrets: Seq<nat>) -> Seq<int> {
    Seq::new(witnesses.len(), |i: int| witnesses[i] - c * secrets[i])
}

proof fn lemma_raw_responses(witnesses: Seq<nat>, c: nat, secrets: Seq<nat>)
    requires
        witnesses.len() == secrets.len(),
    ensures
        group::all_congruent(
            proofs::responses(witnesses, c, secrets),
            raw_responses(witnesses, c, secrets),
        ),
{
    let list = proofs::responses(witnesses, c, secrets);
    assert forall|i: int| 0 <= i < list.len() implies field::congruent(
        #[trigger] list[i] as int,
        raw_responses(witnesses, c, secrets)[i],
    ) by {
        field::lemma_reduce(witnesses[i] - c * secrets[i]);
    }
}

/// The combination of points by responses lacks that by the secrets, `c` times, to be that by the
/// witnesses.
proof fn lemma_combined_responses(
    g: Group,
    points: Seq<Point>,
    witnesses: Seq<nat>,
    c: nat,
    secrets: Seq<nat>,
)
    requires
        all_members(points),
        witnesses.len() == secrets.len(),
    ensures
        group::is_log(
            g.combination(points, proofs::responses(witnesses, c, secrets)),
            group::inner(logs(points), group::ints(witnesses)) - c * group::inner(
                logs(points),
                group::ints(secrets),
            ),
        ),
{
    let raw = raw_responses(witnesses, c, secrets);
    lemma_logs(points);
    lemma_raw_responses(witnesses, c, secrets);
    group::lemma_combination(
        g,
        points,
        logs(points),
        proofs::responses(witnesses, c, secrets),
        raw,
    );
    assert forall|i: int| 0 <= i < group::shorter(logs(points).len(), raw.len()) implies #[trigger] raw[i]
        == 1 * group::ints(witnesses)[i] + (-(c as int)) * group::ints(secrets)[i] by {
        let s = secrets[i] as int;
        let ci = c as int;
        assert((-ci) * s == -(ci * s)) by (nonlinear_arith);
    }
    group::lemma_inner_linear(
        logs(points),
        1,
        group::ints(witnesses),
        -(c as int),
        group::ints(secrets),
        raw,
    );
    let t = group::inner(logs(points), group::ints(secrets));
    let ci = c as int;
    assert((-ci) * t == -(ci * t)) by (nonlinear_arith);
}

proof fn lemma_attribute_commitment(setup: Setup, blind: nat, attributes: Seq<nat>)
    requires
        setup.wf(),
    ensures
        proofs::attribute_commitment(setup, blind, attributes) == group::member(
            blind + group::inner(logs(setup.hs), group::ints(attributes)),
        ),
{
    let s = group::inner(logs(setup.hs), group::ints(attributes));
    lemma_logs(setup.hs);
    lemma_ints(attributes);
    group::lemma_combination(
        Group::G1,
        setup.hs,
        logs(setup.hs),
        attributes,
        group::ints(attributes),
    );
    group::lemma_multiple(Group::G1, setup.g1, 1, blind, blind as int);
    group::lemma_sum(
        Group::G1,
        Group::G1.multiple(setup.g1, blind),
        1 * blind as int,
        Group::G1.combination(setup.hs, attributes),
        s,
    );
}

/// The proof for the signer is complete: what is made from the secrets of a request stands,
/// whatever the witnesses.
pub proof fn law_signer_proof_complete(
    setup: Setup,
    statement: SignerStatement,
    secrets: SignerSecrets,
    witnesses: SignerSecrets,
)
    requires
        setup.wf(),
        statement.gamma is Member,
        statement.hash is Member,
        statement.commit == proofs::attribute_commitment(
            setup,
            secrets.blind,
            secrets.attributes,
        ),
        secrets.keys.len() == secrets.attributes.len(),
        witnesses.keys.len() == secrets.attributes.len(),
        witnesses.attributes.len() == secrets.attributes.len(),
    ensures
        proofs::signer_proof(setup, statement, secrets, witnesses) matches Some(proof)
            ==> proofs::signer_proof_holds(
            setup,
            statement,
            credential::ciphertexts(
                setup,
                statement.gamma,
                statement.hash,
                secrets.attributes,
                secrets.keys,
            ),
            proof,
        ),
{
    let made = proofs::signer_proof(setup, statement, secrets, witnesses);
    if made is Some {
        let proof = made->0;
        let c = proof.challenge;
        let n = secrets.attributes.len();
        let gamma = statement.gamma;
        let hash = statement.hash;
        let gm = gamma->Member_0 as int;
        let h = hash->Member_0 as int;
        let encrypted = credential::ciphertexts(
            setup,
            gamma,
            hash,
            secrets.attributes,
            secrets.keys,
        );
        let firsts = proofs::first_commitments(setup, witnesses.keys);
        let firsts_again = proofs::recomputed_firsts(setup, encrypted, proof);
        assert forall|i: int| 0 <= i < n implies firsts[i] == #[trigger] firsts_again[i] by {
            let k = secrets.keys[i];
            let w = witnesses.keys[i];
            lemma_response(1, w, c, k);
            group::lemma_multiple(Group::G1, setup.g1, 1, k, k as int);
            group::lemma_multiple(Group::G1, encrypted[i].a, 1 * k as int, c, c as int);
            group::lemma_multiple(Group::G1, setup.g1, 1, proof.keys[i], w - c * k);
            group::lemma_sum(
                Group::G1,
                Group::G1.multiple(encrypted[i].a, c),
                1 * k as int * c as int,
                Group::G1.multiple(setup.g1, proof.keys[i]),
                1 * (w - c * k),
            );
            group::lemma_multiple(Group::G1, setup.g1, 1, w, w as int);
        }
        assert(firsts =~= firsts_again);
        let seconds = proofs::second_commitments(statement, witnesses.keys, witnesses.attributes);
        let seconds_again = proofs::recomputed_seconds(statement, encrypted, proof);
        assert forall|i: int| 0 <= i < n implies seconds[i] == #[trigger] seconds_again[i] by {
            let k = secrets.keys[i];
            let m = secrets.attributes[i];
            let w = witnesses.keys[i];
            let u = witnesses.attributes[i];
            lemma_second(statement, c, k, m, w, u);
        }
        assert(seconds =~= seconds_again);
        lemma_commitment_again(setup, statement, secrets, witnesses, proof);
    }
}

/// One of the second components of the ciphertexts.
proof fn lemma_second(statement: SignerStatement, c: nat, k: nat, m: nat, w: nat, u: nat)
    requires
        statement.gamma is Member,
        statement.hash is Member,
    ensures
        ({
            let gamma = statement.gamma;
            let hash = statement.hash;
            let b = Group::G1.sum(Group::G1.multiple(gamma, k), Group::G1.multiple(hash, m));
            Group::G1.sum(
                Group::G1.sum(
                    Group::G1.multiple(b, c),
                    Group::G1.multiple(gamma, proofs::response(w, c, k)),
                ),
                Group::G1.multiple(hash, proofs::response(u, c, m)),
            ) == Group::G1.sum(Group::G1.multiple(gamma, w), Group::G1.multiple(hash, u))
        }),
{
    let gamma = statement.gamma;
    let hash = statement.hash;
    let x = gamma->Member_0 as int;
    let h = hash->Member_0 as int;
    let b = Group::G1.sum(Group::G1.multiple(gamma, k), Group::G1.multiple(hash, m));
    let rk = proofs::response(w, c, k);
    let rm = proofs::response(u, c, m);
    let (ci, ki, mi, wi, ui) = (c as int, k as int, m as int, w as int, u as int);
    lemma_response(x, w, c, k);
    lemma_response(h, u, c, m);
    group::lemma_multiple(Group::G1, gamma, x, k, ki);
    group::lemma_multiple(Group::G1, hash, h, m, mi);
    group::lemma_sum(
        Group::G1,
        Group::G1.multiple(gamma, k),
        x * ki,
        Group::G1.multiple(hash, m),
        h * mi,
    );
    group::lemma_multiple(Group::G1, b, x * ki + h * mi, c, ci);
    group::lemma_multiple(Group::G1, gamma, x, rk, w - c * k);
    group::lemma_multiple(Group::G1, hash, h, rm, u - c * m);
    group::lemma_sum(
        Group::G1,
        Group::G1.multiple(b, c),
        (x * ki + h * mi) * ci,
        Group::G1.multiple(gamma, rk),
        x * (w - c * k),
    );
    group::lemma_sum(
        Group::G1,
        Group::G1.sum(Group::G1.multiple(b, c), Group::G1.multiple(gamma, rk)),
        (x * ki + h * mi) * ci + x * (w - c * k),
        Group::G1.multiple(hash, rm),
        h * (u - c * m),
    );
    group::lemma_multiple(Group::G1, gamma, x, w, wi);
    group::lemma_multiple(Group::G1, hash, h, u, ui);
    group::lemma_sum(
        Group::G1,
        Group::G1.multiple(gamma, w),
        x * wi,
        Group::G1.multiple(hash, u),
        h * ui,
    );
    assert((x * ki + h * mi) * ci == x * ki * ci + h * mi * ci) by (nonlinear_arith);
}

/// The commitment to the attributes, recomputed from the responses.
proof fn lemma_commitment_again(
    setup: Setup,
    statement: SignerStatement,
    secrets: SignerSecrets,
    witnesses: SignerSecrets,
    proof: SignerAnswer,
)
    requires
        setup.wf(),
        statement.commit == proofs::attribute_commitment(
            setup,
            secrets.blind,
            secrets.attributes,
        ),
        witnesses.attributes.len() == secrets.attributes.len(),
        proof.blind == proofs::response(witnesses.blind, proof.challenge, secrets.blind),
        proof.attributes == proofs::responses(
            witnesses.attributes,
            proof.challenge,
            secrets.attributes,
        ),
    ensures
        proofs::recomputed_commitment(setup, statement, proof) == proofs::attribute_commitment(
            setup,
            witnesses.blind,
            witnesses.attributes,
        ),
{
    let c = proof.challenge;
    let ci = c as int;
    let (b, w) = (secrets.blind, witnesses.blind);
    let s = group::inner(logs(setup.hs), group::ints(secrets.attributes));
    let t = group::inner(logs(setup.hs), group::ints(witnesses.attributes));
    lemma_attribute_commitment(setup, b, secrets.attributes);
    lemma_attribute_commitment(setup, w, witnesses.attributes);
    group::lemma_member(b + s);
    group::lemma_multiple(Group::G1, statement.commit, b + s, c, ci);
    lemma_response(1, w, c, b);
    group::lemma_multiple(Group::G1, setup.g1, 1, proof.blind, w - c * b);
    group::lemma_sum(
        Group::G1,
        Group::G1.multiple(statement.commit, c),
        (b + s) * ci,
        Group::G1.multiple(setup.g1, proof.blind),
        1 * (w - c * b),
    );
    lemma_combined_responses(Group::G1, setup.hs, witnesses.attributes, c, secrets.attributes);
    group::lemma_sum(
        Group::G1,
        Group::G1.sum(
            Group::G1.multiple(statement.commit, c),
            Group::G1.multiple(setup.g1, proof.blind),
        ),
        (b + s) * ci + 1 * (w - c * b),
        Group::G1.combination(setup.hs, proof.attributes),
        t - c * s,
    );
    let (bi, wi) = (b as int, w as int);
    assert((bi + s) * ci + 1 * (wi - ci * bi) + (t - ci * s) == wi + t) by (nonlinear_arith);
}

proof fn lemma_key_commitment(setup: Setup, key: PublicKey, blind: nat, attributes: Seq<nat>)
    requires
        setup.wf(),
        key.alpha is Member,
        all_members(key.beta),
    ensures
        proofs::key_commitment(setup, key, blind, attributes) == group::member(
            blind + key.alpha->Member_0 + group::inner(logs(key.beta), group::ints(attributes)),
        ),
{
    let s = group::inner(logs(key.beta), group::ints(attributes));
    let a = key.alpha->Member_0 as int;
    lemma_logs(key.beta);
    lemma_ints(attributes);
    group::lemma_combination(
        Group::G2,
        key.beta,
        logs(key.beta),
        attributes,
        group::ints(attributes),
    );
    group::lemma_multiple(Group::G2, setup.g2, 1, blind, blind as int);
    group::lemma_sum(
        Group::G2,
        Group::G2.multiple(setup.g2, blind),
        1 * blind as int,
        key.alpha,
        a,
    );
    group::lemma_sum(
        Group::G2,
        Group::G2.sum(Group::G2.multiple(setup.g2, blind), key.alpha),
        1 * blind as int + a,
        Group::G2.combination(key.beta, attributes),
        s,
    );
}

/// The proof for the verifier is complete: what is made from the secrets of a shown credential
/// stands, whatever the witnesses.
pub proof fn law_verify_proof_complete(
    setup: Setup,
    key: PublicKey,
    hash: Point,
    secrets: VerifySecrets,
    witnesses: VerifySecrets,
)
    requires
        setup.wf(),
        key.alpha is Member,
        all_members(key.beta),
        hash is Member,
        witnesses.attributes.len() == secrets.attributes.len(),
    ensures
        proofs::verify_proof(setup, key, hash, secrets, witnesses) matches Some(proof)
            ==> proofs::verify_proof_holds(
            setup,
            key,
            hash,
            proofs::key_commitment(setup, key, secrets.blind, secrets.attributes),
            Group::G1.multiple(hash, secrets.blind),
            proof,
        ),
{
    let made = proofs::verify_proof(setup, key, hash, secrets, witnesses);
    if made is Some {
        let proof = made->0;
        let c = proof.challenge;
        let ci = c as int;
        let (b, w) = (secrets.blind, witnesses.blind);
        let (bi, wi) = (b as int, w as int);

        // The point `kappa`.
        let kappa = proofs::key_commitment(setup, key, b, secrets.attributes);
        let a = key.alpha->Member_0 as int;
        let s = group::inner(logs(key.beta), group::ints(secrets.attributes));
        let t = group::inner(logs(key.beta), group::ints(witnesses.attributes));
        lemma_key_commitment(setup, key, b, secrets.attributes);
        lemma_key_commitment(setup, key, w, witnesses.attributes);
        group::lemma_member(bi + a + s);
        group::lemma_multiple(Group::G2, kappa, bi + a + s, c, ci);
        lemma_response(1, w, c, b);
        group::lemma_multiple(Group::G2, setup.g2, 1, proof.blind, w - c * b);
        let first = Group::G2.sum(
            Group::G2.multiple(kappa, c),
            Group::G2.multiple(setup.g2, proof.blind),
        );
        group::lemma_sum(
            Group::G2,
            Group::G2.multiple(kappa, c),
            (bi + a + s) * ci,
            Group::G2.multiple(setup.g2, proof.blind),
            1 * (w - c * b),
        );
        let rest = field::reduce(1 - c);
        field::lemma_reduce(1 - c);
        group::lemma_multiple(Group::G2, key.alpha, a, rest, 1 - c);
        let second = Group::G2.sum(first, Group::G2.multiple(key.alpha, rest));
        group::lemma_sum(
            Group::G2,
            first,
            (bi + a + s) * ci + 1 * (w - c * b),
            Group::G2.multiple(key.alpha, rest),
            a * (1 - c),
        );
        lemma_combined_responses(
            Group::G2,
            key.beta,
            witnesses.attributes,
            c,
            secrets.attributes,
        );
        group::lemma_sum(
            Group::G2,
            second,
            (bi + a + s) * ci + 1 * (w - c * b) + a * (1 - c),
            Group::G2.combination(key.beta, proof.kappa),
            t - c * s,
        );
        assert((bi + a + s) * ci + 1 * (wi - ci * bi) + a * (1 - ci) + (t - ci * s) == wi + a + t)
            by (nonlinear_arith);

        // The point `v`.
        let h = hash->Member_0 as int;
        let v = Group::G1.multiple(hash, b);
        lemma_response(h, w, c, b);
        group::lemma_multiple(Group::G1, hash, h, b, bi);
        group::lemma_multiple(Group::G1, v, h * bi, c, ci);
        group::lemma_multiple(Group::G1, hash, h, proof.blind, w - c * b);
        group::lemma_sum(
            Group::G1,
            Group::G1.multiple(v, c),
            h * bi * ci,
            Group::G1.multiple(hash, proof.blind),
            h * (w - c * b),
        );
        group::lemma_multiple(Group::G1, hash, h, w, wi);
    }
}

/// What a signing key signs: its first scalar, and the others by the attributes.
pub open spec fn signed_value(key: SigningKey, attributes: Seq<nat>) -> nat {
    field::reduce(key.x + interpolation::dot(key.y, attributes))
}

/// The signature of the key on attributes, where the commitment to them hashes to `hash`.
pub open spec fn signature(key: SigningKey, hash: Point, attributes: Seq<nat>) -> Point {
    Group::G1.multiple(hash, signed_value(key, attributes))
}

proof fn lemma_signature(key: SigningKey, hash: Point, attributes: Seq<nat>)
    requires
        hash is Member,
    ensures
        signature(key, hash, attributes) == group::member(
            hash->Member_0 * (key.x + group::inner(group::ints(key.y), group::ints(attributes))),
        ),
        group::is_log(
            signature(key, hash, attributes),
            hash->Member_0 * (key.x + group::inner(group::ints(key.y), group::ints(attributes))),
        ),
{
    let value = key.x + group::inner(group::ints(key.y), group::ints(attributes));
    group::lemma_inner_ints(key.y, attributes);
    field::lemma_reduce(value);
    group::lemma_multiple(
        Group::G1,
        hash,
        hash->Member_0 as int,
        signed_value(key, attributes),
        value,
    );
}

/// Signing commutes with encryption: what the private key makes of the encrypted signature on
/// encrypted attributes is the signature on the attributes.
pub proof fn law_unblind_blind_sign(
    setup: Setup,
    key: SigningKey,
    hash: Point,
    d: nat,
    attributes: Seq<nat>,
    keys: Seq<nat>,
)
    requires
        setup.wf(),
        hash is Member,
        keys.len() == attributes.len(),
    ensures
        elgamal::plaintext(
            d,
            credential::blind_signature(
                key,
                hash,
                credential::ciphertexts(
                    setup,
                    elgamal::encryption_key(setup, d),
                    hash,
                    attributes,
                    keys,
                ),
            ),
        ) == signature(key, hash, attributes),
{
    let gamma = elgamal::encryption_key(setup, d);
    let encrypted = credential::ciphertexts(setup, gamma, hash, attributes, keys);
    let signed = credential::blind_signature(key, hash, encrypted);
    let h = hash->Member_0 as int;
    let di = d as int;
    let x = key.x as int;
    let ks = group::ints(keys);
    let ms = group::ints(attributes);
    let ys = group::ints(key.y);
    let firsts = types::firsts(encrypted);
    let seconds = types::seconds(encrypted);
    let second_logs = Seq::new(keys.len(), |i: int| di * ks[i] + h * ms[i]);
    group::lemma_multiple(Group::G1, setup.g1, 1, d, di);
    assert forall|i: int| 0 <= i < firsts.len() implies group::is_log(
        #[trigger] firsts[i],
        ks[i],
    ) by {
        group::lemma_multiple(Group::G1, setup.g1, 1, keys[i], ks[i]);
    }
    assert forall|i: int| 0 <= i < seconds.len() implies group::is_log(
        #[trigger] seconds[i],
        second_logs[i],
    ) by {
        group::lemma_multiple(Group::G1, gamma, 1 * di, keys[i], ks[i]);
        group::lemma_multiple(Group::G1, hash, h, attributes[i], ms[i]);
        group::lemma_sum(
            Group::G1,
            Group::G1.multiple(gamma, keys[i]),
            1 * di * ks[i],
            Group::G1.multiple(hash, attributes[i]),
            h * ms[i],
        );
    }
    lemma_ints(key.y);
    group::lemma_combination(Group::G1, firsts, ks, key.y, ys);
    group::lemma_combination(Group::G1, seconds, second_logs, key.y, ys);
    let s = group::inner(ys, ks);
    let t = group::inner(ys, ms);
    group::lemma_inner_commutes(ks, ys);
    group::lemma_inner_commutes(second_logs, ys);
    group::lemma_inner_linear(ys, di, ks, h, ms, second_logs);
    group::lemma_multiple(Group::G1, hash, h, key.x, x);
    group::lemma_sum(
        Group::G1,
        Group::G1.multiple(hash, key.x),
        h * x,
        Group::G1.combination(seconds, key.y),
        di * s + h * t,
    );
    group::lemma_multiple(Group::G1, signed.a, s, d, di);
    group::lemma_difference(
        signed.b,
        h * x + (di * s + h * t),
        Group::G1.multiple(signed.a, d),
        s * di,
    );
    assert(h * x + (di * s + h * t) - s * di == h * (x + t)) by (nonlinear_arith);
    lemma_signature(key, hash, attributes);
}

/// The pairing is bilinear: a factor may move from one point to the other.
pub proof fn law_pairing_moves(p: Point, q: Point, k: nat)
    requires
        p is Member,
        q is Member,
    ensures
        credential::pairing_exponent(Group::G1.multiple(p, k), q) == credential::pairing_exponent(
            p,
            Group::G2.multiple(q, k),
        ),
{
    let i = p->Member_0 as int;
    let j = q->Member_0 as int;
    let ki = k as int;
    field::lemma_reduce(i * ki);
    field::lemma_reduce(j * ki);
    field::lemma_multiply(field::reduce(i * ki) as int, i * ki, j, j);
    field::lemma_multiply(i, i, field::reduce(j * ki) as int, j * ki);
    assert(i * ki * j == i * (j * ki)) by (nonlinear_arith);
}

/// The exponents of the two pairings of a shown credential: both are multiples of the number
/// `blind_prime`, and they agree in the part that the blinding factor gives.
proof fn lemma_pairings(
    setup: Setup,
    key: SigningKey,
    signed: PointPair,
    attributes: Seq<nat>,
    draws: ShowDraws,
    shown: Shown,
)
    requires
        setup.wf(),
        signed.a is Member,
        signed.b is Member,
        credential::shown_credential(
            setup,
            keys::public_part(setup, key),
            signed,
            attributes,
            draws,
        ) == Some(shown),
    ensures
        all_members(keys::public_part(setup, key).beta),
        credential::in_groups(setup, shown),
        ({
            let h = signed.a->Member_0 as int;
            let s = signed.b->Member_0 as int;
            let value = key.x + group::inner(group::ints(key.y), group::ints(attributes));
            let p = draws.blind_prime as int;
            let r = draws.blind as int;
            &&& credential::pairing_exponent(shown.signature.a, shown.kappa) == field::reduce(
                h * p * r + p * (h * value),
            )
            &&& credential::pairing_exponent(
                Group::G1.sum(shown.signature.b, shown.v),
                setup.g2,
            ) == field::reduce(h * p * r + p * s)
        }),
{
    let public = keys::public_part(setup, key);
    let h = signed.a->Member_0 as int;
    let s = signed.b->Member_0 as int;
    let x = key.x as int;
    let ys = group::ints(key.y);
    let ms = group::ints(attributes);
    let t = group::inner(ys, ms);
    let (p, r) = (draws.blind_prime, draws.blind);
    let (pi, ri) = (p as int, r as int);
    group::lemma_multiple(Group::G2, setup.g2, 1, key.x, x);
    assert forall|j: int| 0 <= j < public.beta.len() implies group::is_log(
        #[trigger] public.beta[j],
        ys[j],
    ) by {
        group::lemma_multiple(Group::G2, setup.g2, 1, key.y[j], ys[j]);
    }
    assert(all_members(public.beta)) by {
        assert forall|j: int| 0 <= j < public.beta.len() implies (
        #[trigger] public.beta[j]) is Member by {
            assert(group::is_log(public.beta[j], ys[j]));
        }
    }

    // The pairing with `kappa`.
    group::lemma_multiple(Group::G1, signed.a, h, p, pi);
    lemma_ints(attributes);
    group::lemma_combination(Group::G2, public.beta, ys, attributes, ms);
    group::lemma_multiple(Group::G2, setup.g2, 1, r, ri);
    group::lemma_sum(Group::G2, Group::G2.multiple(setup.g2, r), 1 * ri, public.alpha, 1 * x);
    group::lemma_sum(
        Group::G2,
        Group::G2.sum(Group::G2.multiple(setup.g2, r), public.alpha),
        1 * ri + 1 * x,
        Group::G2.combination(public.beta, attributes),
        t,
    );
    field::lemma_multiply(
        shown.signature.a->Member_0 as int,
        h * pi,
        shown.kappa->Member_0 as int,
        1 * ri + 1 * x + t,
    );
    assert(h * pi * (1 * ri + 1 * x + t) == h * pi * ri + pi * (h * (x + t)))
        by (nonlinear_arith);

    // The pairing with the generator.
    group::lemma_multiple(Group::G1, signed.b, s, p, pi);
    group::lemma_multiple(Group::G1, shown.signature.a, h * pi, r, ri);
    group::lemma_sum(Group::G1, shown.signature.b, s * pi, shown.v, h * pi * ri);
    let sum = Group::G1.sum(shown.signature.b, shown.v);
    field::lemma_multiply(sum->Member_0 as int, s * pi + h * pi * ri, 1, 1);
    assert((s * pi + h * pi * ri) * 1 == h * pi * ri + pi * s) by (nonlinear_arith);
}

/// A credential with the signature of a key on its attributes is accepted under the verification
/// key that belongs to the key, whatever the random numbers with which it is shown.
pub proof fn law_shown_credential_accepted(
    setup: Setup,
    key: SigningKey,
    hash: Point,
    attributes: Seq<nat>,
    draws: ShowDraws,
)
    requires
        setup.wf(),
        hash is Member,
        draws.witnesses.attributes.len() == attributes.len(),
    ensures
        credential::shown_credential(
            setup,
            keys::public_part(setup, key),
            (PointPair { a: hash, b: signature(key, hash, attributes) }),
            attributes,
            draws,
        ) matches Some(shown) ==> {
            &&& credential::shown_holds(setup, keys::public_part(setup, key), shown)
            &&& credential::in_groups(setup, shown)
            &&& credential::pairings_agree(setup, shown)
        },
{
    let public = keys::public_part(setup, key);
    let signed = PointPair { a: hash, b: signature(key, hash, attributes) };
    let made = credential::shown_credential(setup, public, signed, attributes, draws);
    if made is Some {
        let shown = made->0;
        let h = hash->Member_0 as int;
        let p = draws.blind_prime as int;
        let r = draws.blind as int;
        let value = key.x + group::inner(group::ints(key.y), group::ints(attributes));
        lemma_pairings(setup, key, signed, attributes, draws, shown);
        law_verify_proof_complete(
            setup,
            public,
            shown.signature.a,
            VerifySecrets { attributes, blind: draws.blind },
            draws.witnesses,
        );
        lemma_signature(key, hash, attributes);
        let s = signed.b->Member_0 as int;
        field::lemma_multiply(p, p, s, h * value);
        field::lemma_add(h * p * r, h * p * r, p * s, p * (h * value));
    }
}

/// A shown credential is accepted exactly where the point in the place of the signature is the
/// signature of the key on the attributes, or the number `blind_prime` is zero, which blinds
/// everything away.
pub proof fn law_shown_credential_exact(
    setup: Setup,
    key: SigningKey,
    signed: PointPair,
    attributes: Seq<nat>,
    draws: ShowDraws,
)
    requires
        setup.wf(),
        signed.a is Member,
        signed.b is Member,
        draws.witnesses.attributes.len() == attributes.len(),
        draws.blind_prime < field::order(),
    ensures
        credential::shown_credential(
            setup,
            keys::public_part(setup, key),
            signed,
            attributes,
            draws,
        ) matches Some(shown) ==> {
            &&& credential::shown_holds(setup, keys::public_part(setup, key), shown)
            &&& credential::in_groups(setup, shown)
            &&& credential::pairings_agree(setup, shown) <==> draws.blind_prime == 0
                || group::is_log(
                signature(key, signed.a, attributes),
                signed.b->Member_0 as int,
            )
        },
{
    let public = keys::public_part(setup, key);
    let made = credential::shown_credential(setup, public, signed, attributes, draws);
    if made is Some {
        let shown = made->0;
        let h = signed.a->Member_0 as int;
        let s = signed.b->Member_0 as int;
        let p = draws.blind_prime as int;
        let r = draws.blind as int;
        let value = key.x + group::inner(group::ints(key.y), group::ints(attributes));
        let blinding = h * p * r;
        lemma_pairings(setup, key, signed, attributes, draws, shown);
        law_verify_proof_complete(
            setup,
            public,
            shown.signature.a,
            VerifySecrets { attributes, blind: draws.blind },
            draws.witnesses,
        );
        lemma_signature(key, signed.a, attributes);
        field::lemma_reduce(blinding + p * (h * value));
        field::lemma_reduce(blinding + p * s);
        if credential::pairings_agree(setup, shown) && p != 0 {
            field::lemma_subtract(
                blinding + p * (h * value),
                blinding + p * s,
                blinding,
                blinding,
            );
            field::lemma_order_large();
            field::lemma_reduce_small(0);
            field::lemma_reduce_small(draws.blind_prime);
            units::lemma_unit(p);
            field::lemma_cancel(p, h * value, s);
        }
        if p == 0 {
            assert(p * (h * value) == 0 && p * s == 0) by (nonlinear_arith)
                requires
                    p == 0,
            ;
        }
        if group::is_log(signature(key, signed.a, attributes), s) {
            field::lemma_multiply(p, p, h * value, s);
            field::lemma_add(blinding, blinding, p * (h * value), p * s);
        }
    }
}

/// A credential with anything else in the place of the signature is refused, whatever the random
/// numbers with which it is shown, as long as the number `blind_prime` is not zero.
pub proof fn law_other_signature_refused(
    setup: Setup,
    key: SigningKey,
    signed: PointPair,
    attributes: Seq<nat>,
    draws: ShowDraws,
)
    requires
        setup.wf(),
        signed.a is Member,
        signed.b is Member,
        draws.witnesses.attributes.len() == attributes.len(),
        0 < draws.blind_prime < field::order(),
        !group::is_log(
            signature(key, signed.a, attributes),
            signed.b->Member_0 as int,
        ),
    ensures
        credential::shown_credential(
            setup,
            keys::public_part(setup, key),
            signed,
            attributes,
            draws,
        ) matches Some(shown) ==> credential::in_groups(setup, shown)
            && !credential::pairings_agree(setup, shown),
{
    law_shown_credential_exact(setup, key, signed, attributes, draws);
}

/// The points that the holders of shares contribute, weighed by the basis of their indexes, give
/// the point of the shared secret: the combination of the multiples of `p` by the values of a
/// polynomial at the indexes is the multiple of `p` by its constant term, where there are as many
/// indexes as coefficients.
pub proof fn law_shares_combine(g: Group, p: Point, coefficients: Seq<nat>, nodes: Seq<nat>)
    requires
        p is Member,
        0 < nodes.len(),
        interpolation::are_indexes(nodes),
        nodes.no_duplicates(),
        coefficients.len() <= nodes.len(),
    ensures
        g.combination(
            Seq::new(
                nodes.len(),
                |i: int| g.multiple(p, interpolation::evaluate(coefficients, nodes[i])),
            ),
            interpolation::basis(nodes),
        ) == g.multiple(p, interpolation::constant_term(coefficients)),
{
    let n = nodes.len();
    let x = p->Member_0 as int;
    let weights = interpolation::basis(nodes);
    let shares = Seq::new(n, |i: int| interpolation::evaluate(coefficients, nodes[i]));
    let points = Seq::new(
        n,
        |i: int| g.multiple(p, interpolation::evaluate(coefficients, nodes[i])),
    );
    let scaled = Seq::new(n, |i: int| x * shares[i]);
    assert forall|i: int| 0 <= i < n implies group::is_log(#[trigger] points[i], scaled[i]) by {
        group::lemma_multiple(g, p, x, shares[i], shares[i] as int);
    }
    lemma_ints(weights);
    group::lemma_combination(g, points, scaled, weights, group::ints(weights));
    group::lemma_inner_commutes(scaled, group::ints(weights));
    group::lemma_inner_linear(
        group::ints(weights),
        x,
        group::ints(shares),
        0,
        group::ints(shares),
        scaled,
    );
    group::lemma_inner_ints(weights, shares);
    interpolation::law_interpolation(nodes, coefficients);
    let c = interpolation::constant_term(coefficients);
    let total = interpolation::dot(weights, shares);
    field::lemma_multiply(x, x, total, c as int);
    field::lemma_reduce_congruent(x * total, x * c);
    group::lemma_multiple(g, p, x, c, c as int);
}

/// The verification keys of all the authorities aggregate to the verification key of the key that
/// nobody holds, where there are as many authorities as the threshold.
pub proof fn law_aggregate_keys(setup: Setup, polynomials: Polynomials, threshold: nat, n: nat)
    requires
        setup.wf(),
        0 < threshold <= n <= u64::MAX,
        polynomials.drawn(threshold, setup.hs.len()),
    ensures
        keys::combined_key(
            keys::public_parts(setup, polynomials.signing_shares(n)),
            interpolation::basis(interpolation::first_nodes(n)),
        ) == keys::public_part(setup, polynomials.master_key()),
{
    let nodes = interpolation::first_nodes(n);
    let weights = interpolation::basis(nodes);
    let shares = keys::public_parts(setup, polynomials.signing_shares(n));
    let master = keys::public_part(setup, polynomials.master_key());
    let combined = keys::combined_key(shares, weights);
    law_shares_combine(Group::G2, setup.g2, polynomials.v, nodes);
    assert(keys::alphas(shares) =~= Seq::new(
        n,
        |i: int| Group::G2.multiple(
            setup.g2,
            interpolation::evaluate(polynomials.v, nodes[i]),
        ),
    ));
    assert forall|j: int| 0 <= j < combined.beta.len() implies combined.beta[j]
        == #[trigger] master.beta[j] by {
        law_shares_combine(Group::G2, setup.g2, polynomials.w[j], nodes);
        assert(keys::betas(shares, j) =~= Seq::new(
            n,
            |i: int| Group::G2.multiple(
                setup.g2,
                interpolation::evaluate(polynomials.w[j], nodes[i]),
            ),
        ));
    }
    assert(combined =~= master);
}

/// The first scalars of the keys of `m` authorities, as many as the threshold, and the aggregate of
/// all verification keys stand for the same secret: the generators pair with the points of either
/// to the same value.
pub proof fn law_shares_pair(
    setup: Setup,
    polynomials: Polynomials,
    threshold: nat,
    n: nat,
    m: nat,
)
    requires
        setup.wf(),
        0 < threshold <= n <= u64::MAX,
        threshold <= m <= u64::MAX,
        polynomials.drawn(threshold, setup.hs.len()),
    ensures
        credential::pairing_exponent(
            Group::G1.combination(
                Seq::new(
                    m,
                    |i: int|
                        Group::G1.multiple(
                            setup.g1,
                            polynomials.signing_share((i + 1) as nat).x,
                        ),
                ),
                interpolation::basis(interpolation::first_nodes(m)),
            ),
            setup.g2,
        ) == credential::pairing_exponent(
            setup.g1,
            keys::combined_key(
                keys::public_parts(setup, polynomials.signing_shares(n)),
                interpolation::basis(interpolation::first_nodes(n)),
            ).alpha,
        ),
{
    let nodes = interpolation::first_nodes(m);
    law_aggregate_keys(setup, polynomials, threshold, n);
    law_shares_combine(Group::G1, setup.g1, polynomials.v, nodes);
    assert(Seq::new(
        m,
        |i: int| Group::G1.multiple(setup.g1, polynomials.signing_share((i + 1) as nat).x),
    ) =~= Seq::new(
        nodes.len(),
        |i: int|
            Group::G1.multiple(setup.g1, interpolation::evaluate(polynomials.v, nodes[i])),
    ));
    law_pairing_moves(setup.g1, setup.g2, polynomials.master_key().x);
}

/// Weighed by the basis, the values that the shares of a key sign sum to the value that the whole
/// key signs; with the first `k` attributes only.
proof fn lemma_signed_values(
    polynomials: Polynomials,
    nodes: Seq<nat>,
    attributes: Seq<nat>,
    k: nat,
)
    requires
        0 < nodes.len(),
        interpolation::are_indexes(nodes),
        nodes.no_duplicates(),
        polynomials.v.len() <= nodes.len(),
        forall|j: int|
            0 <= j < polynomials.w.len() ==> (#[trigger] polynomials.w[j]).len() <= nodes.len(),
        k <= polynomials.w.len(),
        k <= attributes.len(),
    ensures
        field::congruent(
            group::inner(
                group::ints(interpolation::basis(nodes)),
                partial_values(polynomials, nodes, attributes, k),
            ),
            polynomials.master_key().x + interpolation::sigma(
                k,
                |j: int| polynomials.master_key().y[j] as int * attributes[j] as int,
            ),
        ),
    decreases k,
{
    let weights = interpolation::basis(nodes);
    let ws = group::ints(weights);
    let n = nodes.len();
    let now = partial_values(polynomials, nodes, attributes, k);
    let master = polynomials.master_key();
    let f = |j: int| master.y[j] as int * attributes[j] as int;
    if k == 0 {
        let shares = Seq::new(n, |i: int| interpolation::evaluate(polynomials.v, nodes[i]));
        interpolation::law_interpolation(nodes, polynomials.v);
        group::lemma_inner_ints(weights, shares);
        assert(now =~= group::ints(shares));
    } else {
        let j = k - 1;
        let before = partial_values(polynomials, nodes, attributes, j as nat);
        lemma_signed_values(polynomials, nodes, attributes, j as nat);
        let shares = Seq::new(n, |i: int| interpolation::evaluate(polynomials.w[j], nodes[i]));
        let m = attributes[j] as int;
        let y = master.y[j] as int;
        interpolation::law_interpolation(nodes, polynomials.w[j]);
        group::lemma_inner_ints(weights, shares);
        assert forall|i: int| 0 <= i < group::shorter(ws.len(), now.len()) implies #[trigger] now[i] == 1
            * before[i] + m * group::ints(shares)[i] by {
            let share = shares[i] as int;
            assert(m * share == share * m) by (nonlinear_arith);
        }
        group::lemma_inner_linear(ws, 1, before, m, group::ints(shares), now);
        let total = group::inner(ws, group::ints(shares));
        field::lemma_multiply(m, m, total, y);
        assert(m * y == y * m) by (nonlinear_arith);
        field::lemma_add(
            group::inner(ws, before),
            master.x + interpolation::sigma(j as nat, f),
            m * total,
            y * m,
        );
    }
}

/// The values that the shares of a key sign, with the first `k` attributes only.
spec fn partial_values(
    polynomials: Polynomials,
    nodes: Seq<nat>,
    attributes: Seq<nat>,
    k: nat,
) -> Seq<int> {
    Seq::new(
        nodes.len(),
        |i: int|
            polynomials.signing_share(nodes[i]).x + interpolation::sigma(
                k,
                |j: int|
                    polynomials.signing_share(nodes[i]).y[j] as int * attributes[j] as int,
            ),
    )
}

/// The signatures of distinct authorities, as many as the threshold, aggregate to the signature
/// of the key that nobody holds.
pub proof fn law_aggregate_credential(
    polynomials: Polynomials,
    threshold: nat,
    nodes: Seq<nat>,
    hash: Point,
    attributes: Seq<nat>,
)
    requires
        hash is Member,
        0 < threshold <= nodes.len(),
        polynomials.drawn(threshold, attributes.len()),
        interpolation::are_indexes(nodes),
        nodes.no_duplicates(),
    ensures
        Group::G1.combination(
            Seq::new(
                nodes.len(),
                |i: int| signature(polynomials.signing_share(nodes[i]), hash, attributes),
            ),
            interpolation::basis(nodes),
        ) == signature(polynomials.master_key(), hash, attributes),
{
    let n = nodes.len();
    let h = hash->Member_0 as int;
    let k = attributes.len();
    let weights = interpolation::basis(nodes);
    let ws = group::ints(weights);
    let master = polynomials.master_key();
    let values = partial_values(polynomials, nodes, attributes, k);
    let points = Seq::new(
        n,
        |i: int| signature(polynomials.signing_share(nodes[i]), hash, attributes),
    );
    let scaled = Seq::new(n, |i: int| h * values[i]);
    assert forall|i: int| 0 <= i < n implies group::is_log(#[trigger] points[i], scaled[i]) by {
        let share = polynomials.signing_share(nodes[i]);
        lemma_signature(share, hash, attributes);
        group::lemma_inner_ints(share.y, attributes);
    }
    lemma_ints(weights);
    group::lemma_combination(Group::G1, points, scaled, weights, ws);
    group::lemma_inner_commutes(scaled, ws);
    group::lemma_inner_linear(ws, h, values, 0, values, scaled);
    lemma_signed_values(polynomials, nodes, attributes, k);
    lemma_signature(master, hash, attributes);
    group::lemma_inner_ints(master.y, attributes);
    let total = group::inner(ws, values);
    let value = master.x + group::inner(group::ints(master.y), group::ints(attributes));
    field::lemma_multiply(h, h, total, value);
    field::lemma_reduce_congruent(h * total, h * value);
}

/// A request that is made from its secrets is not refused, whoever the signer is.
pub proof fn law_request_holds(
    setup: Setup,
    gamma: Point,
    secrets: SignerSecrets,
    witnesses: SignerSecrets,
)
    requires
        setup.wf(),
        gamma is Member,
        secrets.keys.len() == secrets.attributes.len(),
        witnesses.keys.len() == secrets.attributes.len(),
        witnesses.attributes.len() == secrets.attributes.len(),
    ensures
        credential::request(setup, gamma, secrets, witnesses) matches Some(lambda) ==> {
            &&& hashing::commit_hash(lambda.commit) is Some
            &&& credential::request_holds(
                setup,
                gamma,
                hashing::commit_hash(lambda.commit)->0,
                lambda,
            )
            &&& lambda.encrypted.len() == secrets.attributes.len()
            &&& lambda.proof.keys.len() == secrets.attributes.len()
        },
{
    let made = credential::request(setup, gamma, secrets, witnesses);
    if made is Some {
        let lambda = made->0;
        let hash = hashing::commit_hash(lambda.commit)->0;
        hashing::law_hash_in_group(curve::g1_encoding(lambda.commit));
        law_signer_proof_complete(
            setup,
            SignerStatement { gamma, commit: lambda.commit, hash },
            secrets,
            witnesses,
        );
    }
}

/// The whole course of a credential. The authorities get the values of polynomials as their
/// keys. A user asks for the attributes to be signed, hidden under a key of their own. The
/// request is not refused. The user decrypts the signatures of distinct authorities, as many as
/// the threshold, aggregates them, and shows the result. Under the aggregate of the verification
/// keys it is accepted. All this holds whatever random numbers are drawn on the way.
pub proof fn law_credential_accepted(
    setup: Setup,
    polynomials: Polynomials,
    threshold: nat,
    number_authorities: nat,
    d: nat,
    attributes: Seq<nat>,
    secrets: SignerSecrets,
    witnesses: SignerSecrets,
    nodes: Seq<nat>,
    draws: ShowDraws,
)
    requires
        setup.wf(),
        0 < threshold <= number_authorities <= u64::MAX,
        polynomials.drawn(threshold, setup.hs.len()),
        attributes.len() == setup.hs.len(),
        credential::request_draws(attributes, secrets, witnesses),
        threshold <= nodes.len(),
        interpolation::are_indexes(nodes),
        nodes.no_duplicates(),
        draws.drawn(attributes.len()),
    ensures
        ({
            let key = keys::combined_key(
                keys::public_parts(setup, polynomials.signing_shares(number_authorities)),
                interpolation::basis(interpolation::first_nodes(number_authorities)),
            );
            let gamma = elgamal::encryption_key(setup, d);
            credential::request(setup, gamma, secrets, witnesses) matches Some(lambda) ==> {
                let hash = hashing::commit_hash(lambda.commit)->0;
                let shares = Seq::new(
                    nodes.len(),
                    |i: int|
                        elgamal::plaintext(
                            d,
                            credential::blind_signature(
                                polynomials.signing_share(nodes[i]),
                                hash,
                                lambda.encrypted,
                            ),
                        ),
                );
                let signature = PointPair {
                    a: hash,
                    b: Group::G1.combination(shares, interpolation::basis(nodes)),
                };
                &&& hashing::commit_hash(lambda.commit) is Some
                &&& credential::request_holds(setup, gamma, hash, lambda)
                &&& credential::shown_credential(
                    setup,
                    key,
                    signature,
                    attributes,
                    draws,
                ) matches Some(shown) ==> {
                    &&& credential::shown_holds(setup, key, shown)
                    &&& credential::in_groups(setup, shown)
                    &&& credential::pairings_agree(setup, shown)
                }
            }
        }),
{
    let gamma = elgamal::encryption_key(setup, d);
    let made = credential::request(setup, gamma, secrets, witnesses);
    if made is Some {
        let lambda = made->0;
        let hash = hashing::commit_hash(lambda.commit)->0;
        let master = polynomials.master_key();
        law_request_holds(setup, gamma, secrets, witnesses);
        hashing::law_hash_in_group(curve::g1_encoding(lambda.commit));
        let shares = Seq::new(
            nodes.len(),
            |i: int|
                elgamal::plaintext(
                    d,
                    credential::blind_signature(
                        polynomials.signing_share(nodes[i]),
                        hash,
                        lambda.encrypted,
                    ),
                ),
        );
        let signatures = Seq::new(
            nodes.len(),
            |i: int| signature(polynomials.signing_share(nodes[i]), hash, attributes),
        );
        assert forall|i: int| 0 <= i < nodes.len() implies shares[i] == #[trigger] signatures[i] by {
            law_unblind_blind_sign(
                setup,
                polynomials.signing_share(nodes[i]),
                hash,
                d,
                attributes,
                secrets.keys,
            );
        }
        assert(shares =~= signatures);
        law_aggregate_credential(polynomials, threshold, nodes, hash, attributes);
        law_aggregate_keys(setup, polynomials, threshold, number_authorities);
        law_shown_credential_accepted(setup, master, hash, attributes, draws);
    }
}

} // verus!
