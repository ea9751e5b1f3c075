//! The keys of the authorities.
use vstd::prelude::*;

use crate::curve;
use crate::curve::Point;
use crate::group;
use crate::group::Group;
use crate::interpolation;
use crate::parameters::{Parameters, Setup};
use crate::polynomial;
use crate::random;
use crate::random::RandomSource;
use crate::types;
use crate::types::{PointList, PublicKey, ScalarList, SecretKey, SigningKey, VerifyKey};

verus! {

/// The polynomials out of which the keys of the authorities are made: one, and one more for each
/// attribute.
#[verifier::ext_equal]
pub struct Polynomials {
    pub v: Seq<nat>,
    pub w: Seq<Seq<nat>>,
}

impl Polynomials {
    /// The polynomials have `threshold` coefficients each, and there is one for each attribute.
    pub open spec fn drawn(self, threshold: nat, attributes_size: nat) -> bool {
        &&& self.v.len() == threshold
        &&& random::are_scalars(self.v)
        &&& self.w.len() == attributes_size
        &&& forall|j: int|
            0 <= j < attributes_size ==> (#[trigger] self.w[j]).len() == threshold
                && random::are_scalars(self.w[j])
    }

    /// The key of the authority with this index: the values of the polynomials at the index.
    pub open spec fn signing_share(self, index: nat) -> SigningKey {
        SigningKey {
            x: interpolation::evaluate(self.v, index),
            y: Seq::new(self.w.len(), |j: int| interpolation::evaluate(self.w[j], index)),
        }
    }

    /// The keys of `n` authorities, whose indexes start at one.
    pub open spec fn signing_shares(self, n: nat) -> Seq<SigningKey> {
        Seq::new(n, |i: int| self.signing_share((i + 1) as nat))
    }

    /// The key that nobody holds: the constant terms of the polynomials.
    pub open spec fn master_key(self) -> SigningKey {
        SigningKey {
            x: interpolation::constant_term(self.v),
            y: Seq::new(self.w.len(), |j: int| interpolation::constant_term(self.w[j])),
        }
    }
}

/// The verification key that belongs to a signing key.
pub open spec fn public_part(setup: Setup, key: SigningKey) -> PublicKey {
    PublicKey {
        alpha: Group::G2.multiple(setup.g2, key.x),
        beta: Seq::new(key.y.len(), |j: int| Group::G2.multiple(setup.g2, key.y[j])),
    }
}

/// The verification keys that belong to signing keys.
pub open spec fn public_parts(setup: Setup, keys: Seq<SigningKey>) -> Seq<PublicKey> {
    Seq::new(keys.len(), |i: int| public_part(setup, keys[i]))
}

/// The coefficients of a list of polynomials.
pub open spec fn coefficients(list: Seq<ScalarList>) -> Seq<Seq<nat>> {
    Seq::new(list.len(), |j: int| group::values(list[j]@))
}

/// The keys of an authority out of the polynomials.
fn authority_keys<T: RandomSource>(
    params: &Parameters<T>,
    v_poly: &ScalarList,
    w_poly: &Vec<ScalarList>,
    index: u64,
) -> (r: (SecretKey, VerifyKey))
    ensures
        types::signing_key(r.0) == (Polynomials {
            v: group::values(v_poly@),
            w: coefficients(w_poly@),
        }).signing_share(index as nat),
        types::public_key(r.1) == public_part(params.setup(), types::signing_key(r.0)),
{
    let x = polynomial::compute_polynomial(v_poly, index);
    let alpha = params.g2_multiple(&x);
    let mut y: ScalarList = Vec::new();
    let mut beta: PointList = Vec::new();
    for j in 0..w_poly.len()
        invariant
            y@.len() == j,
            beta@.len() == j,
            forall|k: int|
                0 <= k < j ==> curve::scalar_value(#[trigger] y@[k]) == interpolation::evaluate(
                    group::values(w_poly@[k]@),
                    index as nat,
                ),
            forall|k: int|
                0 <= k < j ==> curve::g2_point(#[trigger] beta@[k]) == Group::G2.multiple(
                    params.setup().g2,
                    curve::scalar_value(y@[k]),
                ),
    {
        let share = polynomial::compute_polynomial(&w_poly[j], index);
        beta.push(params.g2_multiple(&share));
        y.push(share);
    }
    let ghost polynomials = Polynomials {
        v: group::values(v_poly@),
        w: coefficients(w_poly@),
    };
    let secret_key: SecretKey = (x, y);
    let verify_key: VerifyKey = (alpha, beta);
    assert(types::signing_key(secret_key) =~= polynomials.signing_share(index as nat));
    assert(types::public_key(verify_key) =~= public_part(
        params.setup(),
        types::signing_key(secret_key),
    ));
    (secret_key, verify_key)
}

/// The keys of all the authorities out of the polynomials.
pub fn keys_from_polynomials<T: RandomSource>(
    params: &Parameters<T>,
    v_poly: &ScalarList,
    w_poly: &Vec<ScalarList>,
    number_authorities: usize,
) -> (r: (Vec<SecretKey>, Vec<VerifyKey>))
    ensures
        types::signing_keys(r.0@) == (Polynomials {
            v: group::values(v_poly@),
            w: coefficients(w_poly@),
        }).signing_shares(number_authorities as nat),
        types::public_keys(r.1@) == public_parts(params.setup(), types::signing_keys(r.0@)),
{
    let ghost polynomials = Polynomials {
        v: group::values(v_poly@),
        w: coefficients(w_poly@),
    };
    let mut secret_keys: Vec<SecretKey> = Vec::new();
    let mut verify_keys: Vec<VerifyKey> = Vec::new();
    for i in 0..number_authorities
        invariant
            polynomials == (Polynomials {
                v: group::values(v_poly@),
                w: coefficients(w_poly@),
            }),
            secret_keys@.len() == i,
            verify_keys@.len() == i,
            forall|k: int|
                0 <= k < i ==> types::signing_key(#[trigger] secret_keys@[k])
                    == polynomials.signing_share((k + 1) as nat),
            forall|k: int|
                0 <= k < i ==> types::public_key(#[trigger] verify_keys@[k]) == public_part(
                    params.setup(),
                    types::signing_key(secret_keys@[k]),
                ),
    {
        let (secret_key, verify_key) = authority_keys(params, v_poly, w_poly, (i + 1) as u64);
        secret_keys.push(secret_key);
        verify_keys.push(verify_key);
    }
    assert(types::signing_keys(secret_keys@) =~= polynomials.signing_shares(
        number_authorities as nat,
    ));
    assert(types::public_keys(verify_keys@) =~= public_parts(
        params.setup(),
        types::signing_keys(secret_keys@),
    ));
    (secret_keys, verify_keys)
}

/// The number of coefficients grows by the threshold with each polynomial.
proof fn lemma_counts(t: int, k: int, n: int)
    requires
        t > 0,
        0 <= k,
    ensures
        0 < t <= t * (1 + k),
        t * (2 + k) == t * (1 + k) + t,
        k < n ==> t * (2 + k) <= t * (1 + n),
        k <= n ==> t * (1 + k) <= t * (1 + n),
{
    assert(t <= t * (1 + k) && t * (2 + k) == t * (1 + k) + t) by (nonlinear_arith)
        requires
            t > 0,
            0 <= k,
    ;
    if k < n {
        assert(t * (2 + k) <= t * (1 + n)) by (nonlinear_arith)
            requires
                t > 0,
                k < n,
        ;
    }
    if k <= n {
        assert(t * (1 + k) <= t * (1 + n)) by (nonlinear_arith)
            requires
                t > 0,
                k <= n,
        ;
    }
}

/// How many coefficients are drawn for keys with this threshold and number of attributes.
pub open spec fn key_draw_count(threshold: nat, attributes_size: nat) -> nat {
    threshold * (1 + attributes_size)
}

/// The polynomials, in the order in which their coefficients are drawn.
pub open spec fn polynomials_from(
    scalars: Seq<nat>,
    threshold: nat,
    attributes_size: nat,
) -> Polynomials {
    Polynomials {
        v: scalars.subrange(0, threshold as int),
        w: Seq::new(
            attributes_size,
            |j: int| scalars.subrange(threshold * (1 + j), threshold * (2 + j)),
        ),
    }
}

/// The keys with the coefficients that are drawn, where they can be.
pub open spec fn keys_drawn(
    threshold: nat,
    attributes_size: nat,
    number_authorities: nat,
    outcome: Option<Seq<nat>>,
) -> Option<Seq<SigningKey>> {
    match outcome {
        Some(scalars) => Some(
            polynomials_from(scalars, threshold, attributes_size).signing_shares(
                number_authorities,
            ),
        ),
        None => None,
    }
}

/// What the signing keys stand for, where there are keys.
pub open spec fn maybe_signing_keys(found: Option<(Vec<SecretKey>, Vec<VerifyKey>)>) -> Option<
    Seq<SigningKey>,
> {
    match found {
        Some(keys) => Some(types::signing_keys(keys.0@)),
        None => None,
    }
}

/// The keys of all the authorities, out of random polynomials. As many authorities as the
/// threshold can sign together.
pub fn ttp_keygen<T: RandomSource>(
    params: &mut Parameters<T>,
    threshold: usize,
    number_authorities: usize,
) -> (r: Option<(Vec<SecretKey>, Vec<VerifyKey>)>)
    requires
        number_authorities >= threshold > 0,
        old(params).hs@.len() > 0,
    ensures
        final(params).setup() == old(params).setup(),
        *final(final(params).rng) == *final(old(params).rng),
        r matches Some(keys) ==> exists|polynomials: Polynomials| #[trigger]
            polynomials.drawn(threshold as nat, old(params).hs@.len()) && types::signing_keys(
                keys.0@,
            ) == polynomials.signing_shares(number_authorities as nat),
        r matches Some(keys) ==> types::public_keys(keys.1@) == public_parts(
            old(params).setup(),
            types::signing_keys(keys.0@),
        ),
        exists|outcome: Option<Seq<nat>>| #[trigger]
            random::draws_scalars(
                *old(params).rng,
                key_draw_count(threshold as nat, old(params).hs@.len()),
                outcome,
                *final(params).rng,
            ) && maybe_signing_keys(r) == keys_drawn(
                threshold as nat,
                old(params).hs@.len(),
                number_authorities as nat,
                outcome,
            ),
{
    let attributes_size: usize = params.hs.len();
    let ghost t = threshold as int;
    let ghost count = key_draw_count(threshold as nat, attributes_size as nat);
    let ghost before = *params.rng;
    proof {
        lemma_counts(t, 0, attributes_size as int);
    }

    // Generate polynomials
    let drawn_v = params.random_scalars(threshold);
    let v_poly = match drawn_v {
        Some(list) => list,
        None => {
            proof {
                random::lemma_draw_none(before, threshold as nat, *params.rng, count);
            }
            return None;
        },
    };
    let ghost mut scalars = group::values(v_poly@);
    let mut w_poly: Vec<ScalarList> = Vec::new();
    assert(scalars.subrange(0, t) =~= group::values(v_poly@));
    for j in 0..attributes_size
        invariant
            params.setup() == old(params).setup(),
            *final(params.rng) == *final(old(params).rng),
            before == *old(params).rng,
            attributes_size == old(params).hs@.len(),
            t == threshold,
            t > 0,
            count == key_draw_count(threshold as nat, attributes_size as nat),
            scalars.len() == t * (1 + j),
            random::draws_scalars(before, scalars.len(), Some(scalars), *params.rng),
            scalars.subrange(0, t) == group::values(v_poly@),
            forall|k: int|
                0 <= k < j ==> scalars.subrange(t * (1 + k), t * (2 + k)) == group::values(
                    (#[trigger] w_poly@[k])@,
                ),
            w_poly@.len() == j,
            forall|k: int|
                0 <= k < j ==> (#[trigger] w_poly@[k])@.len() == threshold
                    && random::are_scalars(group::values(w_poly@[k]@)),
    {
        let ghost earlier = scalars;
        let ghost between = *params.rng;
        let drawn = params.random_scalars(threshold);
        proof {
            random::lemma_draw_more(
                before,
                earlier,
                between,
                threshold as nat,
                types::maybe_scalars(drawn),
                *params.rng,
            );
            lemma_counts(t, j as int, attributes_size as int);
        }
        match drawn {
            Some(list) => {
                proof {
                    scalars = earlier + group::values(list@);
                    assert(scalars.subrange(0, t) =~= earlier.subrange(0, t));
                    assert(scalars.subrange(t * (1 + j), t * (2 + j)) =~= group::values(list@));
                    assert forall|k: int| 0 <= k < j implies scalars.subrange(
                        t * (1 + k),
                        t * (2 + k),
                    ) == group::values((#[trigger] w_poly@[k])@) by {
                        lemma_counts(t, k, j as int);
                        assert(scalars.subrange(t * (1 + k), t * (2 + k)) =~= earlier.subrange(
                            t * (1 + k),
                            t * (2 + k),
                        ));
                    }
                }
                w_poly.push(list);
            },
            None => {
                proof {
                    random::lemma_draw_none(
                        before,
                        earlier.len() + threshold as nat,
                        *params.rng,
                        count,
                    );
                }
                return None;
            },
        }
    }
    proof {
        let polynomials = Polynomials {
            v: group::values(v_poly@),
            w: coefficients(w_poly@),
        };
        assert(polynomials_from(scalars, threshold as nat, attributes_size as nat)
            =~= polynomials);
        assert(random::draws_scalars(before, count, Some(scalars), *params.rng));
        assert(attributes_size == old(params).setup().hs.len());
        assert(polynomials.drawn(threshold as nat, attributes_size as nat));
    }
    Some(keys_from_polynomials(params, &v_poly, &w_poly, number_authorities))
}

/// The first points of a list of verification keys.
pub open spec fn alphas(keys: Seq<PublicKey>) -> Seq<Point> {
    Seq::new(keys.len(), |i: int| keys[i].alpha)
}

/// The points for the attribute `j` of a list of verification keys.
pub open spec fn betas(keys: Seq<PublicKey>, j: int) -> Seq<Point> {
    Seq::new(keys.len(), |i: int| keys[i].beta[j])
}

/// The combination of verification keys by weights.
pub open spec fn combined_key(keys: Seq<PublicKey>, weights: Seq<nat>) -> PublicKey {
    PublicKey {
        alpha: Group::G2.combination(alphas(keys), weights),
        beta: Seq::new(
            keys[0].beta.len(),
            |j: int| Group::G2.combination(betas(keys, j), weights),
        ),
    }
}

/// The verification key of all the authorities together, whose keys are listed by index,
/// starting at one.
pub fn aggregate_keys<T: RandomSource>(
    params: &Parameters<T>,
    verify_keys: &Vec<VerifyKey>,
) -> (r: VerifyKey)
    requires
        verify_keys@.len() > 0,
        forall|i: int|
            0 <= i < verify_keys@.len() ==> (#[trigger] verify_keys@[i]).1@.len()
                >= verify_keys@[0].1@.len(),
    ensures
        types::public_key(r) == combined_key(
            types::public_keys(verify_keys@),
            interpolation::basis(interpolation::first_nodes(verify_keys@.len())),
        ),
{
    let lagrange = polynomial::lagrange_basis(verify_keys.len() as u64);
    let ghost keys = types::public_keys(verify_keys@);

    let attributes_size: usize = verify_keys[0].1.len();

    let mut alpha: PointList = Vec::new();
    for i in 0..verify_keys.len()
        invariant
            keys == types::public_keys(verify_keys@),
            alpha@.len() == i,
            forall|k: int|
                0 <= k < i ==> curve::g2_point(#[trigger] alpha@[k]) == keys[k].alpha,
    {
        alpha.push(verify_keys[i].0);
    }
    assert(group::points(alpha@) =~= alphas(keys));
    let aggregate_alpha = group::ec_sum(&group::multiples(&alpha, &lagrange));

    let mut aggregate_beta: PointList = Vec::new();
    for j in 0..attributes_size
        invariant
            attributes_size == verify_keys@[0].1@.len(),
            forall|i: int|
                0 <= i < verify_keys@.len() ==> (#[trigger] verify_keys@[i]).1@.len()
                    >= attributes_size,
            keys == types::public_keys(verify_keys@),
            aggregate_beta@.len() == j,
            forall|k: int|
                0 <= k < j ==> curve::g2_point(#[trigger] aggregate_beta@[k])
                    == Group::G2.combination(betas(keys, k), group::values(lagrange@)),
    {
        let mut beta: PointList = Vec::new();
        for i in 0..verify_keys.len()
            invariant
                j < attributes_size,
                forall|i: int|
                    0 <= i < verify_keys@.len() ==> (#[trigger] verify_keys@[i]).1@.len()
                        >= attributes_size,
                keys == types::public_keys(verify_keys@),
                beta@.len() == i,
                forall|k: int|
                    0 <= k < i ==> curve::g2_point(#[trigger] beta@[k])
                        == keys[k].beta[j as int],
        {
            beta.push(verify_keys[i].1[j]);
        }
        assert(group::points(beta@) =~= betas(keys, j as int));
        aggregate_beta.push(group::ec_sum(&group::multiples(&beta, &lagrange)));
    }
    let verify_key: VerifyKey = (aggregate_alpha, aggregate_beta);
    assert(types::public_key(verify_key) =~= combined_key(keys, group::values(lagrange@)));
    verify_key
}

/// Every coefficient, and every key, stands for itself.
pub proof fn law_key_lists(
    list: Seq<ScalarList>,
    keys: (Vec<SecretKey>, Vec<VerifyKey>),
    i: int,
    j: int,
)
    ensures
        coefficients(list).len() == list.len(),
        0 <= j < list.len() ==> coefficients(list)[j].len() == list[j]@.len(),
        0 <= j < list.len() && 0 <= i < list[j]@.len() ==> coefficients(list)[j][i]
            == curve::scalar_value(list[j]@[i]),
        maybe_signing_keys(Some(keys)) == Some(types::signing_keys(keys.0@)),
        maybe_signing_keys(None) is None,
{
}

} // verus!
