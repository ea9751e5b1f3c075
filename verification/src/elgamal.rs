//! ElGamal encryption in the first group, of multiples of a point.
use vstd::prelude::*;

use bls12_381::{G1Projective, Scalar};

use crate::curve;
use crate::curve::Point;
use crate::group;
use crate::group::Group;
use crate::parameters::{Parameters, Setup};
use crate::random;
use crate::random::{MyRandom, RandomSource};
use crate::types;
use crate::types::{EncryptedValue, PointPair};

verus! {

/// The public key that belongs to the private key `d`.
pub open spec fn encryption_key(setup: Setup, d: nat) -> Point {
    Group::G1.multiple(setup.g1, d)
}

/// The ciphertext under the public key `gamma` of the multiple of `hash` by the attribute, with
/// the random number `key`.
pub open spec fn ciphertext(
    setup: Setup,
    gamma: Point,
    hash: Point,
    attribute: nat,
    key: nat,
) -> PointPair {
    PointPair {
        a: Group::G1.multiple(setup.g1, key),
        b: Group::G1.sum(Group::G1.multiple(gamma, key), Group::G1.multiple(hash, attribute)),
    }
}

/// What the private key `d` makes of a ciphertext.
pub open spec fn plaintext(d: nat, encrypted: PointPair) -> Point {
    group::difference(encrypted.b, Group::G1.multiple(encrypted.a, d))
}

/// The public key that belongs to a private key.
pub fn elgamal_public_key<T: RandomSource>(params: &Parameters<T>, private_key: &Scalar) -> (r:
    G1Projective)
    ensures
        curve::g1_point(r) == encryption_key(params.setup(), curve::scalar_value(*private_key)),
{
    params.g1_multiple(private_key)
}

/// What the private key of a pair of keys stands for, where there is one.
pub open spec fn private_part(found: Option<(Scalar, G1Projective)>) -> Option<nat> {
    match found {
        Some(keys) => Some(curve::scalar_value(keys.0)),
        None => None,
    }
}

/// A random private key, and the public key that belongs to it.
pub fn elgamal_keygen<T: RandomSource>(params: &mut Parameters<T>) -> (r: Option<
    (Scalar, G1Projective),
>)
    ensures
        final(params).setup() == old(params).setup(),
        *final(final(params).rng) == *final(old(params).rng),
        random::draws_scalar(*old(params).rng, private_part(r), *final(params).rng),
        r matches Some(keys) ==> keys.0.is_drawn() && curve::g1_point(keys.1) == encryption_key(
            old(params).setup(),
            curve::scalar_value(keys.0),
        ),
{
    match params.random_scalar() {
        Some(d) => {
            let gamma = elgamal_public_key(params, &d);
            Some((d, gamma))
        },
        None => None,
    }
}

/// The ciphertext of the multiple of `commit_hash` by the attribute.
pub fn elgamal_encrypt<T: RandomSource>(
    params: &Parameters<T>,
    gamma: &G1Projective,
    attribute: &Scalar,
    commit_hash: &G1Projective,
    attribute_key: &Scalar,
) -> (r: EncryptedValue)
    ensures
        types::point_pair(r) == ciphertext(
            params.setup(),
            curve::g1_point(*gamma),
            curve::g1_point(*commit_hash),
            curve::scalar_value(*attribute),
            curve::scalar_value(*attribute_key),
        ),
{
    let a = params.g1_multiple(attribute_key);
    let b = curve::g1_add(
        &curve::g1_multiply(gamma, attribute_key),
        &curve::g1_multiply(commit_hash, attribute),
    );
    (a, b)
}

/// The point that a ciphertext hides.
pub fn elgamal_decrypt(private_key: &Scalar, encrypted_value: &EncryptedValue) -> (r: G1Projective)
    ensures
        curve::g1_point(r) == plaintext(
            curve::scalar_value(*private_key),
            types::point_pair(*encrypted_value),
        ),
{
    curve::g1_subtract(
        &encrypted_value.1,
        &curve::g1_multiply(&encrypted_value.0, private_key),
    )
}

/// The private key of a pair of keys is its first component.
pub proof fn law_private_part(keys: (Scalar, G1Projective))
    ensures
        private_part(Some(keys)) == Some(curve::scalar_value(keys.0)),
        private_part(None) is None,
{
}

} // verus!
