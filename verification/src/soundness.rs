//! What is behind an accepted proof, and what fewer shares than the threshold leave open.
use vstd::prelude::*;

use crate::credential;
use crate::curve;
use crate::curve::Point;
use crate::digest;
use crate::field;
use crate::group;
use crate::hashing;
use crate::interpolation;
use crate::keys;
use crate::numbers;
use crate::parameters::Setup;
use crate::proofs;
use crate::proofs::SignerStatement;
use crate::types::{PointPair, PublicKey, Shown, SignerAnswer, SigningKey, VerifyAnswer};
use crate::units;

verus! {

// What is hashed.

/// The challenge of a proof for the signer is the digest of bytes in which the generator, the
/// commitment, the point to which it hashes, the commitment to the witnesses, every one of the
/// first and of the second commitments, every generator of an attribute and the second generator
/// have their encodings, each at its own place.
pub proof fn law_signer_transcript(
    setup: Setup,
    commit: Point,
    hash: Point,
    witness_commit: Point,
    firsts: Seq<Point>,
    seconds: Seq<Point>,
    t: Seq<u8>,
    counter: Seq<u8>,
)
    requires
        t.len() == 48 * (4 + firsts.len() + seconds.len() + setup.hs.len()) + 96,
        t.subrange(0, 48) == curve::g1_encoding(setup.g1),
        t.subrange(48, 96) == curve::g1_encoding(commit),
        t.subrange(96, 144) == curve::g1_encoding(hash),
        t.subrange(144, 192) == curve::g1_encoding(witness_commit),
        forall|i: int|
            0 <= i < firsts.len() ==> t.subrange(48 * (4 + i), 48 * (4 + i) + 48)
                == curve::g1_encoding(#[trigger] firsts[i]),
        forall|i: int|
            0 <= i < seconds.len() ==> t.subrange(
                48 * (4 + firsts.len() + i),
                48 * (4 + firsts.len() + i) + 48,
            ) == curve::g1_encoding(#[trigger] seconds[i]),
        forall|i: int|
            0 <= i < setup.hs.len() ==> t.subrange(
                48 * (4 + firsts.len() + seconds.len() + i),
                48 * (4 + firsts.len() + seconds.len() + i) + 48,
            ) == curve::g1_encoding(#[trigger] setup.hs[i]),
        t.subrange(t.len() - 96, t.len() as int) == curve::g2_encoding(setup.g2),
        counter.len() == 4,
        forall|earlier: Seq<u8>|
            earlier.len() == 4 && field::little_endian(earlier) < field::little_endian(counter)
                ==> field::little_endian(#[trigger] digest::sha256_digest(earlier + t))
                >= field::order(),
    ensures
        field::little_endian(digest::sha256_digest(counter + t)) < field::order()
            ==> proofs::signer_challenge(setup, commit, hash, witness_commit, firsts, seconds)
            == Some(field::little_endian(digest::sha256_digest(counter + t))),
        field::little_endian(digest::sha256_digest(counter + t)) >= field::order()
            && field::little_endian(counter) == 0xffff_ffffnat ==> proofs::signer_challenge(
            setup,
            commit,
            hash,
            witness_commit,
            firsts,
            seconds,
        ) is None,
{
    let f = firsts.len() as int;
    let s = seconds.len() as int;
    let h = setup.hs.len() as int;
    let points = seq![setup.g1, commit, hash, witness_commit] + firsts + seconds + setup.hs;
    let points_g2 = seq![setup.g2];
    assert(points.len() == 4 + f + s + h);
    assert forall|i: int| 0 <= i < points.len() implies t.subrange(48 * i, 48 * i + 48)
        == curve::g1_encoding(#[trigger] points[i]) by {
        if 4 <= i < 4 + f {
            assert(points[i] == firsts[i - 4]);
        } else if 4 + f <= i < 4 + f + s {
            assert(points[i] == seconds[i - 4 - f]);
        } else if 4 + f + s <= i {
            assert(points[i] == setup.hs[i - 4 - f - s]);
        }
    }
    hashing::law_challenge(points, points_g2, t, counter);
}

/// The challenge of a proof for the verifier is the digest of bytes in which the generator, the
/// commitment to the blinding witness, every generator of an attribute, the second generator, the
/// first point of the key, the commitment to the other witnesses and every other point of the key
/// have their encodings, each at its own place.
pub proof fn law_verify_transcript(
    setup: Setup,
    key: PublicKey,
    witness_kappa: Point,
    witness_blind: Point,
    t: Seq<u8>,
    counter: Seq<u8>,
)
    requires
        t.len() == 48 * (2 + setup.hs.len()) + 96 * (3 + key.beta.len()),
        t.subrange(0, 48) == curve::g1_encoding(setup.g1),
        t.subrange(48, 96) == curve::g1_encoding(witness_blind),
        forall|i: int|
            0 <= i < setup.hs.len() ==> t.subrange(48 * (2 + i), 48 * (2 + i) + 48)
                == curve::g1_encoding(#[trigger] setup.hs[i]),
        ({
            let base = 48 * (2 + setup.hs.len() as int);
            &&& t.subrange(base, base + 96) == curve::g2_encoding(setup.g2)
            &&& t.subrange(base + 96, base + 192) == curve::g2_encoding(key.alpha)
            &&& t.subrange(base + 192, base + 288) == curve::g2_encoding(witness_kappa)
        }),
        forall|i: int|
            0 <= i < key.beta.len() ==> t.subrange(
                48 * (2 + setup.hs.len()) + 96 * (3 + i),
                48 * (2 + setup.hs.len()) + 96 * (3 + i) + 96,
            ) == curve::g2_encoding(#[trigger] key.beta[i]),
        counter.len() == 4,
        forall|earlier: Seq<u8>|
            earlier.len() == 4 && field::little_endian(earlier) < field::little_endian(counter)
                ==> field::little_endian(#[trigger] digest::sha256_digest(earlier + t))
                >= field::order(),
    ensures
        field::little_endian(digest::sha256_digest(counter + t)) < field::order()
            ==> proofs::verify_challenge(setup, key, witness_kappa, witness_blind) == Some(
            field::little_endian(digest::sha256_digest(counter + t)),
        ),
        field::little_endian(digest::sha256_digest(counter + t)) >= field::order()
            && field::little_endian(counter) == 0xffff_ffffnat ==> proofs::verify_challenge(
            setup,
            key,
            witness_kappa,
            witness_blind,
        ) is None,
{
    let h = setup.hs.len() as int;
    let points = seq![setup.g1, witness_blind] + setup.hs;
    let points_g2 = seq![setup.g2, key.alpha, witness_kappa] + key.beta;
    assert forall|i: int| 0 <= i < points.len() implies t.subrange(48 * i, 48 * i + 48)
        == curve::g1_encoding(#[trigger] points[i]) by {
        if 2 <= i {
            assert(points[i] == setup.hs[i - 2]);
        }
    }
    assert forall|i: int| 0 <= i < points_g2.len() implies t.subrange(
        48 * points.len() + 96 * i,
        48 * points.len() + 96 * i + 96,
    ) == curve::g2_encoding(#[trigger] points_g2[i]) by {
        if 3 <= i {
            assert(points_g2[i] == key.beta[i - 3]);
        }
    }
    hashing::law_challenge(points, points_g2, t, counter);
}

// What is behind an accepted proof.

/// The secrets that two lists of responses to different challenges give away, where `u` is the
/// inverse of the difference of the challenges.
spec fn extracted(first: Seq<nat>, second: Seq<nat>, u: int) -> Seq<nat> {
    Seq::new(first.len(), |i: int| field::reduce(u * (second[i] - first[i])))
}

proof fn lemma_extracted(base: Seq<nat>, first: Seq<nat>, second: Seq<nat>, u: int)
    requires
        first.len() == second.len(),
    ensures
        field::congruent(
            interpolation::dot(base, extracted(first, second, u)),
            u * (interpolation::dot(base, second) - interpolation::dot(base, first)),
        ),
{
    let m = extracted(first, second, u);
    let raw = Seq::new(
        first.len(),
        |i: int| u * second[i] + (-u) * first[i],
    );
    let n = group::shorter(base.len(), m.len());
    let f = |i: int| base[i] as int * m[i] as int;
    let g = |i: int| group::ints(base)[i] * raw[i];
    assert forall|i: int| 0 <= i < n implies field::congruent(#[trigger] f(i), g(i)) by {
        let (a, b) = (first[i] as int, second[i] as int);
        field::lemma_reduce(u * (b - a));
        assert(u * (b - a) == u * b + (-u) * a) by (nonlinear_arith);
        field::lemma_multiply(base[i] as int, base[i] as int, m[i] as int, raw[i]);
    }
    interpolation::lemma_sigma_congruent(n, f, g);
    group::lemma_inner_linear(
        group::ints(base),
        u,
        group::ints(second),
        -u,
        group::ints(first),
        raw,
    );
    group::lemma_inner_ints(base, second);
    group::lemma_inner_ints(base, first);
    let (d1, d2) = (interpolation::dot(base, first), interpolation::dot(base, second));
    assert(u * d2 + (-u) * d1 == u * (d2 - d1)) by (nonlinear_arith);
}

/// The inverse of the difference of two challenges that are not congruent.
proof fn lemma_inverse(c: nat, d: nat) -> (u: int)
    requires
        (c - d) % (field::order() as int) != 0,
    ensures
        field::congruent(u * (c - d), 1),
{
    field::lemma_order_large();
    field::lemma_reduce_small(0);
    units::lemma_unit(c - d);
    let delta = c - d;
    choose|u: int| field::inverts(u, delta)
}

/// Two expressions in the challenge and a response agree, so that a multiple of the difference of
/// the challenges is the difference of the responses; solved for what is multiplied.
proof fn lemma_solved(k: int, c: int, r: int, d: int, s: int, u: int)
    requires
        field::congruent(k * c + r, k * d + s),
        field::congruent(u * (c - d), 1),
    ensures
        field::congruent(k, u * (s - r)),
{
    field::lemma_subtract(k * c + r, k * d + s, k * d + r, k * d + r);
    assert(k * c + r - (k * d + r) == k * (c - d)) by (nonlinear_arith);
    field::lemma_multiply(u, u, k * (c - d), s - r);
    assert(u * (k * (c - d)) == k * (u * (c - d))) by (nonlinear_arith);
    field::lemma_multiply(k, k, u * (c - d), 1);
    assert(k * 1 == k) by (nonlinear_arith);
}

/// Two proofs for the verifier that answer different challenges to the same commitments give away
/// attributes and a blinding factor of which `kappa` is the commitment under the key and `v` the
/// multiple of the hash. So nobody can answer more than one challenge without them.
pub proof fn law_verify_proof_sound(
    setup: Setup,
    key: PublicKey,
    alpha: nat,
    beta: Seq<nat>,
    hash: nat,
    kappa: nat,
    v: nat,
    first: VerifyAnswer,
    second: VerifyAnswer,
) -> (r: (Seq<nat>, nat))
    requires
        setup.wf(),
        key.alpha == Point::Member(alpha),
        key.beta.len() == beta.len(),
        forall|j: int| 0 <= j < beta.len() ==> key.beta[j] == Point::Member(#[trigger] beta[j]),
        first.kappa.len() == beta.len(),
        second.kappa.len() == beta.len(),
        proofs::recomputed_kappa(setup, key, Point::Member(kappa), first)
            == proofs::recomputed_kappa(setup, key, Point::Member(kappa), second),
        proofs::recomputed_blind(Point::Member(hash), Point::Member(v), first)
            == proofs::recomputed_blind(Point::Member(hash), Point::Member(v), second),
        (first.challenge - second.challenge) % (field::order() as int) != 0,
    ensures
        r.0.len() == beta.len(),
        (kappa - (r.1 + alpha + interpolation::dot(beta, r.0))) % (field::order() as int) == 0,
        (v - hash * r.1) % (field::order() as int) == 0,
{
    let (c, d) = (first.challenge as int, second.challenge as int);
    let (rb, sb) = (first.blind as int, second.blind as int);
    let (k, a, h, w) = (kappa as int, alpha as int, hash as int, v as int);
    let u = lemma_inverse(first.challenge, second.challenge);
    let d1 = interpolation::dot(beta, first.kappa);
    let d2 = interpolation::dot(beta, second.kappa);
    numbers::lemma_recomputed(setup, 1, key, alpha, beta, hash, kappa, v, first);
    numbers::lemma_recomputed(setup, 1, key, alpha, beta, hash, kappa, v, second);
    let m = extracted(first.kappa, second.kappa, u);
    let b = field::reduce(u * (sb - rb));
    field::lemma_reduce(u * (sb - rb));
    // The point `kappa`.
    let e1 = k * c + 1 * rb + a * (1 - c) + d1;
    let e2 = k * d + 1 * sb + a * (1 - d) + d2;
    field::lemma_reduce(e1);
    field::lemma_reduce(e2);
    assert(field::congruent(e1, e2));
    assert(e1 == (k - a) * c + (rb + a + d1)) by (nonlinear_arith)
        requires
            e1 == k * c + 1 * rb + a * (1 - c) + d1,
    ;
    assert(e2 == (k - a) * d + (sb + a + d2)) by (nonlinear_arith)
        requires
            e2 == k * d + 1 * sb + a * (1 - d) + d2,
    ;
    lemma_solved(k - a, c, rb + a + d1, d, sb + a + d2, u);
    lemma_extracted(beta, first.kappa, second.kappa, u);
    let dm = interpolation::dot(beta, m);
    field::lemma_add(b as int, u * (sb - rb), dm, u * (d2 - d1));
    assert(u * ((sb + a + d2) - (rb + a + d1)) == u * (sb - rb) + u * (d2 - d1))
        by (nonlinear_arith);
    field::lemma_subtract(k - a, b + dm, b + dm, b + dm);
    field::law_congruent(k, b + a + dm);
    field::law_congruent(k - a, b + dm);
    // The point `v`.
    let v1 = w * c + h * rb;
    let v2 = w * d + h * sb;
    field::lemma_reduce(v1);
    field::lemma_reduce(v2);
    lemma_solved(w, c, h * rb, d, h * sb, u);
    field::lemma_multiply(h, h, b as int, u * (sb - rb));
    assert(u * (h * sb - h * rb) == h * (u * (sb - rb))) by (nonlinear_arith);
    field::law_congruent(w, h * b);
    (m, b)
}

/// What is behind an accepted credential: the attributes and the blinding factor that open `kappa`
/// and `v` are signed. Where the pairings agree, the blinded signature is that of the key, on
/// these attributes, for the blinded hash.
pub proof fn law_accepted_is_signed(
    setup: Setup,
    key: SigningKey,
    hash: nat,
    sigma: nat,
    kappa: nat,
    v: nat,
    proof: VerifyAnswer,
    shown: Shown,
    attributes: Seq<nat>,
    blind: nat,
)
    requires
        setup.wf(),
        shown == (Shown {
            kappa: Point::Member(kappa),
            v: Point::Member(v),
            signature: PointPair { a: Point::Member(hash), b: Point::Member(sigma) },
            proof,
        }),
        credential::pairings_agree(setup, shown),
        (kappa - (blind + key.x + interpolation::dot(key.y, attributes))) % (
        field::order() as int) == 0,
        (v - hash * blind) % (field::order() as int) == 0,
    ensures
        (sigma - hash * (key.x + interpolation::dot(key.y, attributes))) % (
        field::order() as int) == 0,
{
    let t = key.x + interpolation::dot(key.y, attributes);
    let (h, s, k, w, b) = (hash as int, sigma as int, kappa as int, v as int, blind as int);
    numbers::law_judged(
        setup,
        1,
        keys::public_part(setup, key),
        hash,
        sigma,
        kappa,
        v,
        proof,
        shown,
    );
    field::law_congruent(h * k, (s + w) * 1);
    field::law_congruent(k, b + t);
    field::law_congruent(w, h * b);
    field::lemma_multiply(h, h, k, b + t);
    field::lemma_subtract(s + w, h * (b + t), w, h * b);
    assert(h * (b + t) - h * b == h * t) by (nonlinear_arith);
    field::law_congruent(s, h * t);
}

/// Two proofs for the signer that answer different challenges to the same commitments give away
/// keys, attributes and a blinding factor of which the request is made: both components of every
/// ciphertext and the commitment. So nobody can answer more than one challenge for a request that
/// is not well made.
pub proof fn law_signer_proof_sound(
    setup: Setup,
    hs: Seq<nat>,
    statement: SignerStatement,
    gamma: nat,
    commit: nat,
    hash: nat,
    encrypted: Seq<PointPair>,
    a: Seq<nat>,
    b: Seq<nat>,
    first: SignerAnswer,
    second: SignerAnswer,
) -> (r: (Seq<nat>, Seq<nat>, nat))
    requires
        setup.wf(),
        setup.hs.len() == hs.len(),
        forall|j: int| 0 <= j < hs.len() ==> setup.hs[j] == Point::Member(#[trigger] hs[j]),
        statement.gamma == Point::Member(gamma),
        statement.commit == Point::Member(commit),
        statement.hash == Point::Member(hash),
        a.len() == encrypted.len(),
        b.len() == encrypted.len(),
        forall|i: int|
            0 <= i < encrypted.len() ==> (#[trigger] encrypted[i]).a == Point::Member(a[i])
                && encrypted[i].b == Point::Member(b[i]),
        first.keys.len() == encrypted.len(),
        first.attributes.len() == encrypted.len(),
        second.keys.len() == encrypted.len(),
        second.attributes.len() == encrypted.len(),
        proofs::recomputed_firsts(setup, encrypted, first) == proofs::recomputed_firsts(
            setup,
            encrypted,
            second,
        ),
        proofs::recomputed_seconds(statement, encrypted, first) == proofs::recomputed_seconds(
            statement,
            encrypted,
            second,
        ),
        proofs::recomputed_commitment(setup, statement, first) == proofs::recomputed_commitment(
            setup,
            statement,
            second,
        ),
        (first.challenge - second.challenge) % (field::order() as int) != 0,
    ensures
        r.0.len() == encrypted.len(),
        r.1.len() == encrypted.len(),
        forall|i: int|
            0 <= i < encrypted.len() ==> (#[trigger] a[i] - r.0[i]) % (field::order() as int) == 0,
        forall|i: int|
            0 <= i < encrypted.len() ==> (#[trigger] b[i] - (gamma * r.0[i] + hash * r.1[i])) % (
            field::order() as int) == 0,
        (commit - (r.2 + interpolation::dot(hs, r.1))) % (field::order() as int) == 0,
{
    let (c, d) = (first.challenge as int, second.challenge as int);
    let u = lemma_inverse(first.challenge, second.challenge);
    let ks = extracted(first.keys, second.keys, u);
    let ms = extracted(first.attributes, second.attributes, u);
    let (g, h, cm) = (gamma as int, hash as int, commit as int);
    assert forall|i: int| 0 <= i < encrypted.len() implies (#[trigger] a[i] - ks[i]) % (
    field::order() as int) == 0 && (b[i] - (gamma * ks[i] + hash * ms[i])) % (
    field::order() as int) == 0 by {
        assert(encrypted[i].a == Point::Member(a[i]));
        numbers::lemma_recomputed_pair(setup, 1, statement, gamma, hash, encrypted, a, b, first, i);
        numbers::lemma_recomputed_pair(setup, 1, statement, gamma, hash, encrypted, a, b, second, i);
        let f1 = proofs::recomputed_firsts(setup, encrypted, first)[i];
        let f2 = proofs::recomputed_firsts(setup, encrypted, second)[i];
        assert(f1 == f2);
        let g1 = proofs::recomputed_seconds(statement, encrypted, first)[i];
        let g2 = proofs::recomputed_seconds(statement, encrypted, second)[i];
        assert(g1 == g2);
        let (ai, bi) = (a[i] as int, b[i] as int);
        let (k1, k2) = (first.keys[i] as int, second.keys[i] as int);
        let (m1, m2) = (first.attributes[i] as int, second.attributes[i] as int);
        field::lemma_reduce(ai * c + 1 * k1);
        field::lemma_reduce(ai * d + 1 * k2);
        lemma_solved(ai, c, k1, d, k2, u);
        field::lemma_reduce(u * (k2 - k1));
        field::law_congruent(ai, ks[i] as int);
        field::lemma_reduce(bi * c + g * k1 + h * m1);
        field::lemma_reduce(bi * d + g * k2 + h * m2);
        lemma_solved(bi, c, g * k1 + h * m1, d, g * k2 + h * m2, u);
        field::lemma_reduce(u * (m2 - m1));
        field::lemma_multiply(g, g, ks[i] as int, u * (k2 - k1));
        field::lemma_multiply(h, h, ms[i] as int, u * (m2 - m1));
        field::lemma_add(g * ks[i], g * (u * (k2 - k1)), h * ms[i], h * (u * (m2 - m1)));
        let (kd, md) = (k2 - k1, m2 - m1);
        assert((g * k2 + h * m2) - (g * k1 + h * m1) == g * kd + h * md) by (nonlinear_arith)
            requires
                kd == k2 - k1,
                md == m2 - m1,
        ;
        assert(u * (g * kd + h * md) == g * (u * kd) + h * (u * md)) by (nonlinear_arith);
        field::law_congruent(bi, g * ks[i] + h * ms[i]);
    }
    assert forall|i: int| 0 <= i < encrypted.len() implies (#[trigger] b[i] - (gamma * ks[i] + hash
        * ms[i])) % (field::order() as int) == 0 by {
        assert((a[i] - ks[i]) % (field::order() as int) == 0);
    }
    // The commitment.
    let (rb, sb) = (first.blind as int, second.blind as int);
    let d1 = interpolation::dot(hs, first.attributes);
    let d2 = interpolation::dot(hs, second.attributes);
    numbers::lemma_recomputed_commitment(setup, 1, hs, statement, commit, first);
    numbers::lemma_recomputed_commitment(setup, 1, hs, statement, commit, second);
    field::lemma_reduce(cm * c + 1 * rb + d1);
    field::lemma_reduce(cm * d + 1 * sb + d2);
    lemma_solved(cm, c, rb + d1, d, sb + d2, u);
    let blind = field::reduce(u * (sb - rb));
    field::lemma_reduce(u * (sb - rb));
    lemma_extracted(hs, first.attributes, second.attributes, u);
    let dm = interpolation::dot(hs, ms);
    field::lemma_add(blind as int, u * (sb - rb), dm, u * (d2 - d1));
    assert(u * ((sb + d2) - (rb + d1)) == u * (sb - rb) + u * (d2 - d1)) by (nonlinear_arith);
    field::law_congruent(cm, blind + dm);
    (ks, ms, blind)
}

// What fewer shares than the threshold leave open.

/// The coefficients of the polynomial that is `y` at `a` and whose difference quotient there has
/// the coefficients `quotient`.
spec fn raised(quotient: Seq<nat>, y: int, a: int) -> Seq<nat>
    decreases quotient.len(),
{
    if quotient.len() == 0 {
        seq![field::reduce(y)]
    } else {
        seq![field::reduce(y - a * quotient[0])] + raised(
            quotient.drop_first(),
            quotient[0] as int,
            a,
        )
    }
}

proof fn lemma_raised(quotient: Seq<nat>, y: int, a: int, x: int)
    ensures
        raised(quotient, y, a).len() == quotient.len() + 1,
        forall|i: int|
            0 <= i < raised(quotient, y, a).len() ==> #[trigger] raised(quotient, y, a)[i]
                < field::order(),
        field::congruent(
            interpolation::polynomial(raised(quotient, y, a), x),
            y + (x - a) * interpolation::polynomial(quotient, x),
        ),
    decreases quotient.len(),
{
    let all = raised(quotient, y, a);
    if quotient.len() == 0 {
        assert(all.drop_first() =~= Seq::<nat>::empty());
        field::lemma_reduce(y);
        assert(x * 0 == 0 && (x - a) * 0 == 0) by (nonlinear_arith);
        assert(interpolation::polynomial(all.drop_first(), x) == 0);
        assert(interpolation::polynomial(all, x) == all[0] + x * 0);
        assert(interpolation::polynomial(quotient, x) == 0);
    } else {
        let q0 = quotient[0] as int;
        let rest = quotient.drop_first();
        let later = raised(rest, q0, a);
        lemma_raised(rest, q0, a, x);
        assert(all.drop_first() =~= later);
        assert forall|i: int| 0 <= i < all.len() implies #[trigger] all[i] < field::order() by {
            field::lemma_reduce(y - a * q0);
            if i > 0 {
                assert(all[i] == later[i - 1]);
            }
        }
        let p = interpolation::polynomial(rest, x);
        let l = interpolation::polynomial(later, x);
        field::lemma_reduce(y - a * q0);
        field::lemma_multiply(x, x, l, q0 + (x - a) * p);
        field::lemma_add(
            field::reduce(y - a * q0) as int,
            y - a * q0,
            x * l,
            x * (q0 + (x - a) * p),
        );
        let e = x - a;
        let ep = e * p;
        assert((y - a * q0) + x * (q0 + ep) == y + e * q0 + x * ep) by (nonlinear_arith)
            requires
                e == x - a,
        ;
        assert(x * ep == e * (x * p)) by (nonlinear_arith)
            requires
                ep == e * p,
        ;
        assert(y + e * q0 + e * (x * p) == y + e * (q0 + x * p)) by (nonlinear_arith);
        assert(interpolation::polynomial(all, x) == all[0] + x * l);
        assert(interpolation::polynomial(quotient, x) == q0 + x * p);
    }
}

/// Through values at distinct nodes goes a polynomial with as many coefficients.
proof fn lemma_through(nodes: Seq<nat>, values: Seq<nat>) -> (coefficients: Seq<nat>)
    requires
        interpolation::are_indexes(nodes),
        nodes.no_duplicates(),
        values.len() == nodes.len(),
    ensures
        coefficients.len() == nodes.len(),
        forall|i: int|
            0 <= i < coefficients.len() ==> #[trigger] coefficients[i] < field::order(),
        forall|i: int|
            0 <= i < nodes.len() ==> field::congruent(
                interpolation::polynomial(coefficients, #[trigger] nodes[i] as int),
                values[i] as int,
            ),
    decreases nodes.len(),
{
    if nodes.len() == 0 {
        Seq::empty()
    } else {
        let n = nodes.len() - 1;
        let a = nodes.last() as int;
        let y = values.last() as int;
        let before = nodes.drop_last();
        let quotients = Seq::new(
            n as nat,
            |i: int| choose|k: nat| is_quotient(k, values[i] as int, y, nodes[i] as int, a),
        );
        assert forall|i: int| 0 <= i < n implies is_quotient(
            #[trigger] quotients[i],
            values[i] as int,
            y,
            nodes[i] as int,
            a,
        ) by {
            assert(nodes[i] != nodes.last());
            lemma_quotient(values[i] as int, y, nodes[i], nodes.last());
        }
        assert forall|i: int| 0 <= i < before.len() implies #[trigger] before[i] <= u64::MAX by {
            assert(before[i] == nodes[i]);
        }
        let quotient = lemma_through(before, quotients);
        let all = raised(quotient, y, a);
        lemma_raised(quotient, y, a, a);
        assert forall|i: int| 0 <= i < nodes.len() implies field::congruent(
            interpolation::polynomial(all, #[trigger] nodes[i] as int),
            values[i] as int,
        ) by {
            let x = nodes[i] as int;
            lemma_raised(quotient, y, a, x);
            let p = interpolation::polynomial(quotient, x);
            if i < n {
                assert(before[i] == nodes[i]);
                assert(is_quotient(quotients[i], values[i] as int, y, nodes[i] as int, a));
                let k = quotients[i] as int;
                field::lemma_multiply(x - a, x - a, p, k);
                field::lemma_add(y, y, (x - a) * p, (x - a) * k);
                field::lemma_add(y, y, (x - a) * k, values[i] - y);
            } else {
                assert((x - a) * p == 0) by (nonlinear_arith)
                    requires
                        x == a,
                ;
            }
        }
        all
    }
}

/// The number `k` is the difference quotient: that of `v - y` by `x - a`.
spec fn is_quotient(k: nat, v: int, y: int, x: int, a: int) -> bool {
    field::congruent((x - a) * k, v - y)
}

proof fn lemma_quotient(v: int, y: int, x: nat, a: nat)
    requires
        x != a,
        x <= u64::MAX,
        a <= u64::MAX,
    ensures
        exists|k: nat| is_quotient(k, v, y, x as int, a as int),
{
    let d = x - a;
    let n = v - y;
    interpolation::lemma_distinct(x, a);
    units::lemma_unit(d);
    let u = choose|u: int| field::inverts(u, d);
    let k = field::reduce(n * u);
    field::lemma_reduce(n * u);
    field::lemma_multiply(d, d, k as int, n * u);
    field::lemma_multiply(n, n, u * d, 1);
    assert(d * (n * u) == n * (u * d) && n * 1 == n) by (nonlinear_arith);
    assert(is_quotient(k, v, y, x as int, a as int));
}

/// Fewer authorities than the threshold do not determine the key: whatever shares are found at
/// distinct indexes, one fewer than the threshold, and whatever the secret is taken to be, there
/// are as many coefficients as the threshold that have this secret and these shares.
pub proof fn law_fewer_shares_leave_all_open(
    nodes: Seq<nat>,
    shares: Seq<nat>,
    secret: nat,
) -> (coefficients: Seq<nat>)
    requires
        interpolation::are_indexes(nodes),
        nodes.no_duplicates(),
        forall|i: int| 0 <= i < nodes.len() ==> #[trigger] nodes[i] > 0,
        shares.len() == nodes.len(),
        forall|i: int| 0 <= i < shares.len() ==> #[trigger] shares[i] < field::order(),
        secret < field::order(),
    ensures
        coefficients.len() == nodes.len() + 1,
        forall|i: int|
            0 <= i < coefficients.len() ==> #[trigger] coefficients[i] < field::order(),
        coefficients[0] == secret,
        forall|i: int|
            0 <= i < nodes.len() ==> interpolation::evaluate(coefficients, #[trigger] nodes[i])
                == shares[i],
{
    let n = nodes.len();
    let c = secret as int;
    let quotients = Seq::new(
        n,
        |i: int| choose|k: nat| is_quotient(k, shares[i] as int, c, nodes[i] as int, 0),
    );
    assert forall|i: int| 0 <= i < n implies is_quotient(
        #[trigger] quotients[i],
        shares[i] as int,
        c,
        nodes[i] as int,
        0,
    ) by {
        assert(nodes[i] > 0);
        lemma_quotient(shares[i] as int, c, nodes[i], 0);
    }
    let quotient = lemma_through(nodes, quotients);
    let coefficients = seq![secret] + quotient;
    assert(coefficients.drop_first() =~= quotient);
    assert forall|i: int| 0 <= i < coefficients.len() implies #[trigger] coefficients[i]
        < field::order() by {
        if i > 0 {
            assert(coefficients[i] == quotient[i - 1]);
        }
    }
    assert forall|i: int| 0 <= i < n implies interpolation::evaluate(
        coefficients,
        #[trigger] nodes[i],
    ) == shares[i] by {
        let x = nodes[i] as int;
        let k = quotients[i] as int;
        let p = interpolation::polynomial(quotient, x);
        assert(is_quotient(quotients[i], shares[i] as int, c, nodes[i] as int, 0));
        assert(field::congruent(p, k));
        field::lemma_multiply(x, x, p, k);
        field::lemma_add(c, c, x * p, x * k);
        field::lemma_add(c, c, x * k, shares[i] - c);
        assert(interpolation::polynomial(coefficients, x) == c + x * p);
        field::lemma_reduce_congruent(c + x * p, shares[i] as int);
        field::lemma_reduce_small(shares[i]);
    }
    coefficients
}

} // verus!
