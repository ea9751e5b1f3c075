//! The messages of the scheme, and what they stand for.
use vstd::prelude::*;

use bls12_381::{G1Projective, G2Projective, Scalar};

use crate::curve;
use crate::curve::Point;
use crate::group;

verus! {

/// A list of scalars.
pub type ScalarList = Vec<Scalar>;

/// A list of points of the second group.
pub type PointList = Vec<G2Projective>;

/// The key with which signatures are verified: one point, and one more for each attribute.
pub type VerifyKey = (G2Projective, PointList);

/// The key with which an authority signs: one scalar, and one more for each attribute.
pub type SecretKey = (Scalar, ScalarList);

/// An ElGamal ciphertext.
pub type EncryptedValue = (G1Projective, G1Projective);

/// The attributes of a credential.
pub type AttributeList = Vec<Scalar>;

/// The proof that a request to sign is well made: the challenge, and the responses for the
/// blinding factor, the keys and the attributes.
pub type SignerProof = (Scalar, Scalar, Vec<Scalar>, Vec<Scalar>);

/// The proof that a shown credential is well made: the challenge, and the responses for the
/// attributes and the blinding factor.
pub type VerifyProof = (Scalar, Vec<Scalar>, Scalar);

/// A request to sign: the commitment to the attributes, their ciphertexts, and the proof.
pub type LambdaType = (G1Projective, Vec<EncryptedValue>, SignerProof);

/// A signature on encrypted attributes, itself encrypted.
pub type PartialSignature = (G1Projective, G1Projective);

/// A signature: the point to which the commitment hashes, and its multiple by the signed value.
pub type Signature = (G1Projective, G1Projective);

/// A shown credential.
pub type ProvenCredential = (G2Projective, G1Projective, Signature, VerifyProof);

/// What a [`VerifyKey`] stands for.
#[verifier::ext_equal]
pub struct PublicKey {
    pub alpha: Point,
    pub beta: Seq<Point>,
}

/// What a [`SecretKey`] stands for.
#[verifier::ext_equal]
pub struct SigningKey {
    pub x: nat,
    pub y: Seq<nat>,
}

/// What a pair of points of the first group stands for.
pub struct PointPair {
    pub a: Point,
    pub b: Point,
}

/// What a [`SignerProof`] stands for.
#[verifier::ext_equal]
pub struct SignerAnswer {
    pub challenge: nat,
    pub blind: nat,
    pub keys: Seq<nat>,
    pub attributes: Seq<nat>,
}

/// What a [`VerifyProof`] stands for.
#[verifier::ext_equal]
pub struct VerifyAnswer {
    pub challenge: nat,
    pub kappa: Seq<nat>,
    pub blind: nat,
}

/// What a [`LambdaType`] stands for.
#[verifier::ext_equal]
pub struct Request {
    pub commit: Point,
    pub encrypted: Seq<PointPair>,
    pub proof: SignerAnswer,
}

/// What a [`ProvenCredential`] stands for.
#[verifier::ext_equal]
pub struct Shown {
    pub kappa: Point,
    pub v: Point,
    pub signature: PointPair,
    pub proof: VerifyAnswer,
}

pub open spec fn public_key(key: VerifyKey) -> PublicKey {
    PublicKey { alpha: curve::g2_point(key.0), beta: group::points(key.1@) }
}

pub open spec fn public_keys(keys: Seq<VerifyKey>) -> Seq<PublicKey> {
    Seq::new(keys.len(), |i: int| public_key(keys[i]))
}

pub open spec fn signing_key(key: SecretKey) -> SigningKey {
    SigningKey { x: curve::scalar_value(key.0), y: group::values(key.1@) }
}

pub open spec fn signing_keys(keys: Seq<SecretKey>) -> Seq<SigningKey> {
    Seq::new(keys.len(), |i: int| signing_key(keys[i]))
}

pub open spec fn point_pair(pair: (G1Projective, G1Projective)) -> PointPair {
    PointPair { a: curve::g1_point(pair.0), b: curve::g1_point(pair.1) }
}

pub open spec fn point_pairs(pairs: Seq<(G1Projective, G1Projective)>) -> Seq<PointPair> {
    Seq::new(pairs.len(), |i: int| point_pair(pairs[i]))
}

/// The first components.
pub open spec fn firsts(pairs: Seq<PointPair>) -> Seq<Point> {
    Seq::new(pairs.len(), |i: int| pairs[i].a)
}

/// The second components.
pub open spec fn seconds(pairs: Seq<PointPair>) -> Seq<Point> {
    Seq::new(pairs.len(), |i: int| pairs[i].b)
}

pub open spec fn signer_answer(proof: SignerProof) -> SignerAnswer {
    SignerAnswer {
        challenge: curve::scalar_value(proof.0),
        blind: curve::scalar_value(proof.1),
        keys: group::values(proof.2@),
        attributes: group::values(proof.3@),
    }
}

pub open spec fn verify_answer(proof: VerifyProof) -> VerifyAnswer {
    VerifyAnswer {
        challenge: curve::scalar_value(proof.0),
        kappa: group::values(proof.1@),
        blind: curve::scalar_value(proof.2),
    }
}

pub open spec fn request(lambda: LambdaType) -> Request {
    Request {
        commit: curve::g1_point(lambda.0),
        encrypted: point_pairs(lambda.1@),
        proof: signer_answer(lambda.2),
    }
}

pub open spec fn shown(credential: ProvenCredential) -> Shown {
    Shown {
        kappa: curve::g2_point(credential.0),
        v: curve::g1_point(credential.1),
        signature: point_pair(credential.2),
        proof: verify_answer(credential.3),
    }
}

/// What a scalar stands for, where there is one.
pub open spec fn maybe_scalar(found: Option<Scalar>) -> Option<nat> {
    match found {
        Some(s) => Some(curve::scalar_value(s)),
        None => None,
    }
}

/// What a list of scalars stands for, where there is one.
pub open spec fn maybe_scalars(found: Option<Vec<Scalar>>) -> Option<Seq<nat>> {
    match found {
        Some(list) => Some(group::values(list@)),
        None => None,
    }
}

/// What a proof for the signer stands for, where there is one.
pub open spec fn maybe_signer_answer(found: Option<SignerProof>) -> Option<SignerAnswer> {
    match found {
        Some(proof) => Some(signer_answer(proof)),
        None => None,
    }
}

/// What a proof for the verifier stands for, where there is one.
pub open spec fn maybe_verify_answer(found: Option<VerifyProof>) -> Option<VerifyAnswer> {
    match found {
        Some(proof) => Some(verify_answer(proof)),
        None => None,
    }
}

/// What a request stands for, where there is one.
pub open spec fn maybe_request(found: Option<LambdaType>) -> Option<Request> {
    match found {
        Some(lambda) => Some(request(lambda)),
        None => None,
    }
}

/// What a shown credential stands for, where there is one.
pub open spec fn maybe_shown(found: Option<ProvenCredential>) -> Option<Shown> {
    match found {
        Some(credential) => Some(shown(credential)),
        None => None,
    }
}

/// Every component of a key stands for itself.
pub proof fn law_key_views(
    key: VerifyKey,
    secret: SecretKey,
    keys: Seq<VerifyKey>,
    secrets: Seq<SecretKey>,
    i: int,
)
    ensures
        public_key(key).alpha == curve::g2_point(key.0),
        public_key(key).beta.len() == key.1@.len(),
        0 <= i < key.1@.len() ==> public_key(key).beta[i] == curve::g2_point(key.1@[i]),
        signing_key(secret).x == curve::scalar_value(secret.0),
        signing_key(secret).y.len() == secret.1@.len(),
        0 <= i < secret.1@.len() ==> signing_key(secret).y[i] == curve::scalar_value(
            secret.1@[i],
        ),
        public_keys(keys).len() == keys.len(),
        0 <= i < keys.len() ==> public_keys(keys)[i] == public_key(keys[i]),
        signing_keys(secrets).len() == secrets.len(),
        0 <= i < secrets.len() ==> signing_keys(secrets)[i] == signing_key(secrets[i]),
{
}

/// Every component of pairs of points stands for itself.
pub proof fn law_pair_views(
    pair: (G1Projective, G1Projective),
    pairs: Seq<(G1Projective, G1Projective)>,
    list: Seq<PointPair>,
    i: int,
)
    ensures
        point_pair(pair).a == curve::g1_point(pair.0),
        point_pair(pair).b == curve::g1_point(pair.1),
        point_pairs(pairs).len() == pairs.len(),
        0 <= i < pairs.len() ==> point_pairs(pairs)[i] == point_pair(pairs[i]),
        firsts(list).len() == list.len(),
        seconds(list).len() == list.len(),
        0 <= i < list.len() ==> firsts(list)[i] == list[i].a && seconds(list)[i] == list[i].b,
{
}

/// Every component of a proof stands for itself.
pub proof fn law_proof_views(signer: SignerProof, verify: VerifyProof, i: int)
    ensures
        signer_answer(signer).challenge == curve::scalar_value(signer.0),
        signer_answer(signer).blind == curve::scalar_value(signer.1),
        signer_answer(signer).keys.len() == signer.2@.len(),
        0 <= i < signer.2@.len() ==> signer_answer(signer).keys[i] == curve::scalar_value(
            signer.2@[i],
        ),
        signer_answer(signer).attributes.len() == signer.3@.len(),
        0 <= i < signer.3@.len() ==> signer_answer(signer).attributes[i] == curve::scalar_value(
            signer.3@[i],
        ),
        verify_answer(verify).challenge == curve::scalar_value(verify.0),
        verify_answer(verify).kappa.len() == verify.1@.len(),
        0 <= i < verify.1@.len() ==> verify_answer(verify).kappa[i] == curve::scalar_value(
            verify.1@[i],
        ),
        verify_answer(verify).blind == curve::scalar_value(verify.2),
{
}

/// Every component of a request and of a shown credential stands for itself.
pub proof fn law_message_views(lambda: LambdaType, credential: ProvenCredential)
    ensures
        request(lambda).commit == curve::g1_point(lambda.0),
        request(lambda).encrypted == point_pairs(lambda.1@),
        request(lambda).proof == signer_answer(lambda.2),
        shown(credential).kappa == curve::g2_point(credential.0),
        shown(credential).v == curve::g1_point(credential.1),
        shown(credential).signature == point_pair(credential.2),
        shown(credential).proof == verify_answer(credential.3),
{
}

/// What there is stands for itself, and nothing stands for what there is not.
pub proof fn law_optional_views(
    scalar: Scalar,
    list: Vec<Scalar>,
    signer: SignerProof,
    verify: VerifyProof,
    lambda: LambdaType,
    credential: ProvenCredential,
)
    ensures
        maybe_scalar(Some(scalar)) == Some(curve::scalar_value(scalar)),
        maybe_scalar(None) is None,
        maybe_scalars(Some(list)) == Some(group::values(list@)),
        maybe_scalars(None) is None,
        maybe_signer_answer(Some(signer)) == Some(signer_answer(signer)),
        maybe_signer_answer(None) is None,
        maybe_verify_answer(Some(verify)) == Some(verify_answer(verify)),
        maybe_verify_answer(None) is None,
        maybe_request(Some(lambda)) == Some(request(lambda)),
        maybe_request(None) is None,
        maybe_shown(Some(credential)) == Some(shown(credential)),
        maybe_shown(None) is None,
{
}

} // verus!
