//! The part of the `bls12_381` crate that the library rests on.
//!
//! The types of that crate are opaque here. A scalar is seen through its value, and a point
//! through its place in the group ([`Point`]); the items of this module say what the functions
//! of the crate do to these views. Nothing in this module is proved: it states what the crate
//! documents.
use vstd::prelude::*;

use crate::field;

verus! {

#[verifier::external_type_specification]
#[verifier::external_body]
pub struct ExScalar(bls12_381::Scalar);

#[verifier::external_type_specification]
#[verifier::external_body]
pub struct ExG1Affine(bls12_381::G1Affine);

#[verifier::external_type_specification]
#[verifier::external_body]
pub struct ExG1Projective(bls12_381::G1Projective);

#[verifier::external_type_specification]
#[verifier::external_body]
pub struct ExG2Affine(bls12_381::G2Affine);

#[verifier::external_type_specification]
#[verifier::external_body]
pub struct ExG2Projective(bls12_381::G2Projective);

#[verifier::external_type_specification]
#[verifier::external_body]
pub struct ExGt(bls12_381::Gt);

/// What a value of one of the point types stands for.
///
/// Only the "unchecked" functions of `bls12_381` make a point that is not a
/// [`Member`](Point::Member).
pub enum Point {
    /// The group element that is this multiple of the fixed generator, the least there is.
    Member(nat),
    /// A point of the curve outside the group, by its place in some list of these.
    Curve(nat),
    /// A pair of coordinates off the curve, by its place in some list of these.
    Other(nat),
}

/// The integer below the order that a scalar stands for: the one whose little-endian digits
/// `Scalar::to_bytes` gives.
pub uninterp spec fn scalar_value(s: bls12_381::Scalar) -> nat;

/// What a value of `G1Projective` stands for. Coordinates of the same point that differ by a
/// factor stand for the same thing.
pub uninterp spec fn g1_point(p: bls12_381::G1Projective) -> Point;

/// What a value of `G1Affine` stands for.
pub uninterp spec fn g1_affine_point(p: bls12_381::G1Affine) -> Point;

/// What a value of `G2Projective` stands for. Coordinates of the same point that differ by a
/// factor stand for the same thing.
pub uninterp spec fn g2_point(p: bls12_381::G2Projective) -> Point;

/// What a value of `G2Affine` stands for.
pub uninterp spec fn g2_affine_point(p: bls12_381::G2Affine) -> Point;

/// The multiple of the pairing of the two fixed generators that a value of `Gt` is.
pub uninterp spec fn gt_exponent(t: bls12_381::Gt) -> nat;

/// The sum in `G1Projective` where a summand is not in the group.
pub uninterp spec fn g1_stray_sum(a: Point, b: Point) -> Point;

/// The difference in `G1Projective` where an operand is not in the group.
pub uninterp spec fn g1_stray_difference(a: Point, b: Point) -> Point;

/// The multiple in `G1Projective` of a point that is not in the group.
pub uninterp spec fn g1_stray_multiple(p: Point, k: nat) -> Point;

/// The sum in `G2Projective` where a summand is not in the group.
pub uninterp spec fn g2_stray_sum(a: Point, b: Point) -> Point;

/// The multiple in `G2Projective` of a point that is not in the group.
pub uninterp spec fn g2_stray_multiple(p: Point, k: nat) -> Point;

/// The group element, as a multiple of the generator, to which `clear_cofactor` maps the point
/// of the curve outside the group with this place.
pub uninterp spec fn g1_cleared(place: nat) -> nat;

/// The 48 bytes to which `G1Affine::to_compressed` maps a point.
pub uninterp spec fn g1_encoding(p: Point) -> Seq<u8>;

/// The 96 bytes to which `G2Affine::to_compressed` maps a point.
pub uninterp spec fn g2_encoding(p: Point) -> Seq<u8>;

/// A point of the curve of the first group, in the group or not.
pub enum CurvePoint {
    /// The group element that is this multiple of the fixed generator.
    Member(nat),
    /// The point outside the group with this place.
    Outside(nat),
}

impl CurvePoint {
    /// The same point among all that a point type can hold.
    pub open spec fn point(self) -> Point {
        match self {
            CurvePoint::Member(k) => Point::Member(k),
            CurvePoint::Outside(place) => Point::Curve(place),
        }
    }
}

/// The point that `G1Affine::from_compressed_unchecked` reads out of 48 bytes.
pub uninterp spec fn g1_decompressed(bytes: Seq<u8>) -> Option<CurvePoint>;

/// The factor by which `clear_cofactor` multiplies the elements of the group.
pub open spec fn cofactor_factor() -> nat {
    0xd201000000010001nat
}

/// `Scalar::zero` is the scalar zero.
pub assume_specification[ bls12_381::Scalar::zero ]() -> (r: bls12_381::Scalar)
    ensures
        scalar_value(r) == 0,
;

/// `Scalar::one` is the scalar one.
pub assume_specification[ bls12_381::Scalar::one ]() -> (r: bls12_381::Scalar)
    ensures
        scalar_value(r) == 1,
;

/// The operator `+` on `Scalar` adds in the field.
#[verifier::external_body]
pub(crate) fn scalar_add(
    a: &bls12_381::Scalar,
    b: &bls12_381::Scalar,
) -> (r: bls12_381::Scalar)
    ensures
        scalar_value(r) == field::reduce((scalar_value(*a) + scalar_value(*b)) as int),
{
    a + b
}

/// The operator `-` on `Scalar` subtracts in the field.
#[verifier::external_body]
pub(crate) fn scalar_subtract(
    a: &bls12_381::Scalar,
    b: &bls12_381::Scalar,
) -> (r: bls12_381::Scalar)
    ensures
        scalar_value(r) == field::reduce(scalar_value(*a) - scalar_value(*b)),
{
    a - b
}

/// The operator `*` on `Scalar` multiplies in the field.
#[verifier::external_body]
pub(crate) fn scalar_multiply(
    a: &bls12_381::Scalar,
    b: &bls12_381::Scalar,
) -> (r: bls12_381::Scalar)
    ensures
        scalar_value(r) == field::reduce((scalar_value(*a) * scalar_value(*b)) as int),
{
    a * b
}

/// `Scalar::pow` raises to the power whose base-2^64 digits are given, the least significant
/// first.
pub assume_specification[ bls12_381::Scalar::pow ](
    a: &bls12_381::Scalar,
    by: &[u64; 4],
) -> (r: bls12_381::Scalar)
    ensures
        scalar_value(r) == field::reduce(
            vstd::arithmetic::power::pow(
                scalar_value(*a) as int,
                (by@[0] + 0x1_0000_0000_0000_0000nat * (by@[1] + 0x1_0000_0000_0000_0000nat * (by@[2]
                    + 0x1_0000_0000_0000_0000nat * by@[3]))) as nat,
            ),
        ),
;

/// The conversion `Scalar::from` of a `u64` keeps the value.
#[verifier::external_body]
pub(crate) fn scalar_from_u64(x: u64) -> (r: bls12_381::Scalar)
    ensures
        scalar_value(r) == x,
{
    bls12_381::Scalar::from(x)
}

/// `Scalar::from_bytes` reads a little-endian number, and refuses those from the order on.
#[verifier::external_body]
pub(crate) fn scalar_from_bytes(bytes: &[u8; 32]) -> (r: Option<bls12_381::Scalar>)
    ensures
        r is Some <==> field::little_endian(bytes@) < field::order(),
        r matches Some(s) ==> scalar_value(s) == field::little_endian(bytes@),
{
    Option::from(bls12_381::Scalar::from_bytes(bytes))
}

/// `Scalar::invert` gives the inverse of every scalar but zero, for which there is none.
#[verifier::external_body]
pub(crate) fn scalar_invert(a: &bls12_381::Scalar) -> (r: Option<bls12_381::Scalar>)
    ensures
        r is Some <==> scalar_value(*a) != 0,
        r matches Some(s) ==> {
            &&& scalar_value(s) < field::order()
            &&& field::inverts(scalar_value(s) as int, scalar_value(*a) as int)
        },
{
    Option::from(a.invert())
}

/// The comparison `==` of two scalars compares their values.
#[verifier::external_body]
pub(crate) fn scalar_equal(a: &bls12_381::Scalar, b: &bls12_381::Scalar) -> (r: bool)
    ensures
        r == (scalar_value(*a) == scalar_value(*b)),
{
    a == b
}

/// `G1Projective::identity` is the neutral element.
pub assume_specification[ bls12_381::G1Projective::identity ]() -> (r: bls12_381::G1Projective)
    ensures
        g1_point(r) == Point::Member(0),
;

/// The operator `+` on `G1Projective` adds in the group.
#[verifier::external_body]
pub(crate) fn g1_add(
    a: &bls12_381::G1Projective,
    b: &bls12_381::G1Projective,
) -> (r: bls12_381::G1Projective)
    ensures
        g1_point(r) == (match (g1_point(*a), g1_point(*b)) {
            (Point::Member(i), Point::Member(j)) => Point::Member(field::reduce((i + j) as int)),
            (p, q) => g1_stray_sum(p, q),
        }),
{
    a + b
}

/// The operator `-` on `G1Projective` subtracts in the group.
#[verifier::external_body]
pub(crate) fn g1_subtract(
    a: &bls12_381::G1Projective,
    b: &bls12_381::G1Projective,
) -> (r: bls12_381::G1Projective)
    ensures
        g1_point(r) == (match (g1_point(*a), g1_point(*b)) {
            (Point::Member(i), Point::Member(j)) => Point::Member(field::reduce(i - j)),
            (p, q) => g1_stray_difference(p, q),
        }),
{
    a - b
}

/// The operator `*` on `G1Projective` and `Scalar` gives the multiple of the point.
#[verifier::external_body]
pub(crate) fn g1_multiply(
    a: &bls12_381::G1Projective,
    k: &bls12_381::Scalar,
) -> (r: bls12_381::G1Projective)
    ensures
        g1_point(r) == (match g1_point(*a) {
            Point::Member(i) => Point::Member(field::reduce((i * scalar_value(*k)) as int)),
            p => g1_stray_multiple(p, scalar_value(*k)),
        }),
{
    a * k
}

/// `G1Projective::clear_cofactor` maps every point of the curve into the group. On the group it
/// is the multiplication by a constant of the curve.
pub assume_specification[ bls12_381::G1Projective::clear_cofactor ](
    a: &bls12_381::G1Projective,
) -> (r: bls12_381::G1Projective)
    requires
        !(g1_point(*a) is Other),
    ensures
        g1_point(r) == (match g1_point(*a) {
            Point::Member(i) => Point::Member(field::reduce((i * cofactor_factor()) as int)),
            Point::Curve(place) => Point::Member(g1_cleared(place)),
            p => p,
        }),
;

/// The conversion `G1Projective::from` of affine coordinates keeps the point.
#[verifier::external_body]
pub(crate) fn g1_from_affine(a: &bls12_381::G1Affine) -> (r: bls12_381::G1Projective)
    ensures
        g1_point(r) == g1_affine_point(*a),
{
    bls12_381::G1Projective::from(a)
}

/// The conversion `G1Affine::from` of projective coordinates keeps the point.
#[verifier::external_body]
pub(crate) fn g1_to_affine(a: &bls12_381::G1Projective) -> (r: bls12_381::G1Affine)
    ensures
        g1_affine_point(r) == g1_point(*a),
{
    bls12_381::G1Affine::from(a)
}

/// `G1Affine::generator` is the fixed generator.
pub assume_specification[ bls12_381::G1Affine::generator ]() -> (r: bls12_381::G1Affine)
    ensures
        g1_affine_point(r) == Point::Member(1),
;

/// `G1Affine::to_compressed` encodes a point in 48 bytes.
pub assume_specification[ bls12_381::G1Affine::to_compressed ](
    a: &bls12_381::G1Affine,
) -> (r: [u8; 48])
    ensures
        r@ == g1_encoding(g1_affine_point(*a)),
;

/// `G1Affine::from_compressed_unchecked` reads the point of the curve that bytes encode. It need
/// not be in the group.
#[verifier::external_body]
pub(crate) fn g1_decompress_unchecked(bytes: &[u8; 48]) -> (r: Option<bls12_381::G1Affine>)
    ensures
        r is Some <==> g1_decompressed(bytes@) is Some,
        r matches Some(p) ==> g1_affine_point(p) == g1_decompressed(bytes@)->0.point(),
{
    Option::from(bls12_381::G1Affine::from_compressed_unchecked(bytes))
}

/// `G1Affine::is_on_curve` tells whether the coordinates satisfy the equation of the curve.
#[verifier::external_body]
pub(crate) fn g1_is_on_curve(a: &bls12_381::G1Affine) -> (r: bool)
    ensures
        r == !(g1_affine_point(*a) is Other),
{
    bool::from(a.is_on_curve())
}

/// `G1Affine::is_torsion_free` tells whether a point of the curve is in the group.
#[verifier::external_body]
pub(crate) fn g1_is_torsion_free(a: &bls12_381::G1Affine) -> (r: bool)
    requires
        !(g1_affine_point(*a) is Other),
    ensures
        r == (g1_affine_point(*a) is Member),
{
    bool::from(a.is_torsion_free())
}

/// `G2Projective::identity` is the neutral element.
pub assume_specification[ bls12_381::G2Projective::identity ]() -> (r: bls12_381::G2Projective)
    ensures
        g2_point(r) == Point::Member(0),
;

/// The operator `+` on `G2Projective` adds in the group.
#[verifier::external_body]
pub(crate) fn g2_add(
    a: &bls12_381::G2Projective,
    b: &bls12_381::G2Projective,
) -> (r: bls12_381::G2Projective)
    ensures
        g2_point(r) == (match (g2_point(*a), g2_point(*b)) {
            (Point::Member(i), Point::Member(j)) => Point::Member(field::reduce((i + j) as int)),
            (p, q) => g2_stray_sum(p, q),
        }),
{
    a + b
}

/// The operator `*` on `G2Projective` and `Scalar` gives the multiple of the point.
#[verifier::external_body]
pub(crate) fn g2_multiply(
    a: &bls12_381::G2Projective,
    k: &bls12_381::Scalar,
) -> (r: bls12_381::G2Projective)
    ensures
        g2_point(r) == (match g2_point(*a) {
            Point::Member(i) => Point::Member(field::reduce((i * scalar_value(*k)) as int)),
            p => g2_stray_multiple(p, scalar_value(*k)),
        }),
{
    a * k
}

/// The conversion `G2Projective::from` of affine coordinates keeps the point.
#[verifier::external_body]
pub(crate) fn g2_from_affine(a: &bls12_381::G2Affine) -> (r: bls12_381::G2Projective)
    ensures
        g2_point(r) == g2_affine_point(*a),
{
    bls12_381::G2Projective::from(a)
}

/// The conversion `G2Affine::from` of projective coordinates keeps the point.
#[verifier::external_body]
pub(crate) fn g2_to_affine(a: &bls12_381::G2Projective) -> (r: bls12_381::G2Affine)
    ensures
        g2_affine_point(r) == g2_point(*a),
{
    bls12_381::G2Affine::from(a)
}

/// `G2Affine::generator` is the fixed generator.
pub assume_specification[ bls12_381::G2Affine::generator ]() -> (r: bls12_381::G2Affine)
    ensures
        g2_affine_point(r) == Point::Member(1),
;

/// `G2Affine::to_compressed` encodes a point in 96 bytes.
pub assume_specification[ bls12_381::G2Affine::to_compressed ](
    a: &bls12_381::G2Affine,
) -> (r: [u8; 96])
    ensures
        r@ == g2_encoding(g2_affine_point(*a)),
;

/// `G2Affine::is_on_curve` tells whether the coordinates satisfy the equation of the curve.
#[verifier::external_body]
pub(crate) fn g2_is_on_curve(a: &bls12_381::G2Affine) -> (r: bool)
    ensures
        r == !(g2_affine_point(*a) is Other),
{
    bool::from(a.is_on_curve())
}

/// `G2Affine::is_torsion_free` tells whether a point of the curve is in the group.
#[verifier::external_body]
pub(crate) fn g2_is_torsion_free(a: &bls12_381::G2Affine) -> (r: bool)
    requires
        !(g2_affine_point(*a) is Other),
    ensures
        r == (g2_affine_point(*a) is Member),
{
    bool::from(a.is_torsion_free())
}

/// `pairing` is bilinear. It panics on some points that are not in the groups.
pub assume_specification[ bls12_381::pairing ](
    p: &bls12_381::G1Affine,
    q: &bls12_381::G2Affine,
) -> (r: bls12_381::Gt)
    requires
        g1_affine_point(*p) is Member,
        g2_affine_point(*q) is Member,
    ensures
        gt_exponent(r) == field::reduce(
            (g1_affine_point(*p)->Member_0 * g2_affine_point(*q)->Member_0) as int,
        ),
;

/// The comparison `==` of two pairings compares their exponents.
#[verifier::external_body]
pub(crate) fn gt_equal(a: &bls12_381::Gt, b: &bls12_381::Gt) -> (r: bool)
    ensures
        r == (gt_exponent(*a) == gt_exponent(*b)),
{
    a == b
}

} // verus!
