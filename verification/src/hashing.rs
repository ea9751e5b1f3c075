//! Hashing to points of the first group and to challenges.
use vstd::prelude::*;

use bls12_381::{G1Affine, G1Projective, G2Projective, Scalar};

use crate::curve;
use crate::curve::{CurvePoint, Point};
use crate::digest;
use crate::field;
use crate::group;

verus! {

/// What `clear_cofactor` makes of a point of the curve: an element of the group.
pub open spec fn cleared(p: CurvePoint) -> Point {
    match p {
        CurvePoint::Member(k) => Point::Member(
            field::reduce((k * curve::cofactor_factor()) as int),
        ),
        CurvePoint::Outside(place) => Point::Member(curve::g1_cleared(place)),
    }
}

/// The four bytes of a counter, the least significant first.
pub open spec fn counter_bytes(i: nat) -> Seq<u8> {
    seq![
        (i % 256) as u8,
        (i / 0x100 % 256) as u8,
        (i / 0x1_0000 % 256) as u8,
        (i / 0x100_0000 % 256) as u8,
    ]
}

/// The first candidate that there is for a counter from `from` on, up to the last that four
/// bytes hold.
pub open spec fn search<T>(candidates: spec_fn(nat) -> Option<T>, from: nat) -> Option<T>
    decreases 0x1_0000_0000nat - from,
{
    if from >= 0x1_0000_0000nat {
        None
    } else {
        match candidates(from) {
            Some(t) => Some(t),
            None => search(candidates, from + 1),
        }
    }
}

/// The point to which a message and a counter hash, if the digest encodes one.
pub open spec fn hash_candidate(message: Seq<u8>, counter: nat) -> Option<Point> {
    match curve::g1_decompressed(
        digest::sha512_digest(message + counter_bytes(counter)).subrange(0, 48),
    ) {
        Some(p) => Some(cleared(p)),
        None => None,
    }
}

/// The point to which a message hashes: that of the first counter for which there is one.
pub open spec fn hash_point(message: Seq<u8>) -> Option<Point> {
    search(|i: nat| hash_candidate(message, i), 0)
}

/// The encodings of points of the first group, one after the other.
pub open spec fn g1_transcript(points: Seq<Point>) -> Seq<u8>
    decreases points.len(),
{
    if points.len() == 0 {
        Seq::empty()
    } else {
        g1_transcript(points.drop_last()) + curve::g1_encoding(points.last())
    }
}

/// The encodings of points of the second group, one after the other.
pub open spec fn g2_transcript(points: Seq<Point>) -> Seq<u8>
    decreases points.len(),
{
    if points.len() == 0 {
        Seq::empty()
    } else {
        g2_transcript(points.drop_last()) + curve::g2_encoding(points.last())
    }
}

/// The scalar to which a transcript and a counter hash, if the digest is below the order.
pub open spec fn challenge_candidate(transcript: Seq<u8>, counter: nat) -> Option<nat> {
    let x = field::little_endian(digest::sha256_digest(counter_bytes(counter) + transcript));
    if x < field::order() {
        Some(x)
    } else {
        None
    }
}

/// The challenge for two lists of points: that of the first counter for which there is one.
pub open spec fn challenge(points_g1: Seq<Point>, points_g2: Seq<Point>) -> Option<nat> {
    let transcript = g1_transcript(points_g1) + g2_transcript(points_g2);
    search(|i: nat| challenge_candidate(transcript, i), 0)
}

/// The conversion `TryFrom` of a vector to an array takes the elements over where there are as
/// many as the array has.
#[verifier::external_body]
fn vec_into_array<T, const N: usize>(elements: Vec<T>) -> (r: Option<[T; N]>)
    ensures
        r is Some <==> elements@.len() == N,
        r matches Some(a) ==> a@ == elements@,
{
    elements.try_into().ok()
}

/// An array of clones of the elements of a slice.
pub fn clone_into_array<T: Clone, const N: usize>(slice: &[T]) -> (r: [T; N])
    requires
        slice@.len() == N,
    ensures
        forall|i: int| 0 <= i < N ==> cloned(slice@[i], #[trigger] r@[i]),
{
    let mut elements: Vec<T> = Vec::new();
    elements.extend_from_slice(slice);
    vec_into_array(elements).unwrap()
}

/// The first 48 bytes of the SHA-512 digest of a message.
pub fn sha256_hash(message: &[u8]) -> (r: [u8; 48])
    ensures
        r@ == digest::sha512_digest(message@).subrange(0, 48),
{
    let hash_result = digest::sha512(message);
    let hash_data: [u8; 48] = clone_into_array(
        vstd::slice::slice_subrange(hash_result.as_slice(), 0, 48),
    );
    assert(hash_data@ =~= hash_result@.subrange(0, 48));
    hash_data
}

/// The bytes of a counter.
fn counter_data(i: u32) -> (r: [u8; 4])
    ensures
        r@ == counter_bytes(i as nat),
{
    let r: [u8; 4] = [
        (i % 256) as u8,
        (i / 0x100 % 256) as u8,
        (i / 0x1_0000 % 256) as u8,
        (i / 0x100_0000 % 256) as u8,
    ];
    assert(r@ =~= counter_bytes(i as nat));
    r
}

/// Points to which a message can be hashed.
pub trait HashableGenerator: Sized {
    /// What the value stands for.
    spec fn place(&self) -> Point;

    /// The point to which the message hashes. There is none if no counter of four bytes leads to
    /// the encoding of a point.
    fn hash_to_point(message: &[u8]) -> (r: Option<Self>)
        ensures
            r is Some <==> hash_point(message@) is Some,
            r matches Some(p) ==> p.place() == hash_point(message@)->0,
    ;
}

impl HashableGenerator for G1Affine {
    open spec fn place(&self) -> Point {
        curve::g1_affine_point(*self)
    }

    fn hash_to_point(message: &[u8]) -> (r: Option<Self>) {
        let ghost candidates = |i: nat| hash_candidate(message@, i);
        let mut i: u32 = 0;
        loop
            invariant
                candidates == (|i: nat| hash_candidate(message@, i)),
                hash_point(message@) == search(candidates, i as nat),
            decreases u32::MAX - i,
        {
            let i_data = counter_data(i);
            let mut data: Vec<u8> = Vec::new();
            data.extend_from_slice(message);
            data.extend_from_slice(&i_data);
            assert(data@ =~= message@ + counter_bytes(i as nat));
            let hash = sha256_hash(data.as_slice());
            assert(candidates(i as nat) == hash_candidate(message@, i as nat));
            if let Some(affine_point) = curve::g1_decompress_unchecked(&hash) {
                let projective_point = curve::g1_from_affine(&affine_point).clear_cofactor();
                return Some(curve::g1_to_affine(&projective_point));
            }
            if i == u32::MAX {
                assert(search(candidates, 0x1_0000_0000nat) is None);
                return None;
            }
            i = i + 1;
        }
    }
}

impl HashableGenerator for G1Projective {
    open spec fn place(&self) -> Point {
        curve::g1_point(*self)
    }

    fn hash_to_point(message: &[u8]) -> (r: Option<Self>) {
        match G1Affine::hash_to_point(message) {
            Some(p) => Some(curve::g1_from_affine(&p)),
            None => None,
        }
    }
}

proof fn lemma_search_member(candidates: spec_fn(nat) -> Option<Point>, from: nat)
    requires
        forall|i: nat| #[trigger] candidates(i) matches Some(p) ==> p is Member,
    ensures
        search(candidates, from) matches Some(p) ==> p is Member,
    decreases 0x1_0000_0000nat - from,
{
    if from < 0x1_0000_0000nat {
        lemma_search_member(candidates, from + 1);
    }
}

/// The point to which a message hashes is in the group.
pub proof fn law_hash_in_group(message: Seq<u8>)
    ensures
        hash_point(message) matches Some(p) ==> p is Member,
{
    lemma_search_member(|i: nat| hash_candidate(message, i), 0);
}

/// The point to which the encoding of a commitment hashes.
pub open spec fn commit_hash(attribute_commit: Point) -> Option<Point> {
    hash_point(curve::g1_encoding(attribute_commit))
}

/// The point to which the encoding of a commitment hashes, if there is one.
pub fn compute_commit_hash(attribute_commit: &G1Projective) -> (r: Option<G1Projective>)
    ensures
        r is Some <==> commit_hash(curve::g1_point(*attribute_commit)) is Some,
        r matches Some(h) ==> curve::g1_point(h) == commit_hash(
            curve::g1_point(*attribute_commit),
        )->0,
{
    let commit_data = curve::g1_to_affine(attribute_commit).to_compressed();
    G1Projective::hash_to_point(&commit_data)
}

/// The encodings of two lists of points, one after the other.
fn transcript(points_g1: &Vec<G1Projective>, points_g2: &Vec<G2Projective>) -> (r: Vec<u8>)
    ensures
        r@ == g1_transcript(group::points(points_g1@)) + g2_transcript(group::points(points_g2@)),
{
    let mut data: Vec<u8> = Vec::new();
    let ghost firsts = group::points(points_g1@);
    let ghost seconds = group::points(points_g2@);
    assert(firsts.take(0) =~= Seq::<Point>::empty());
    assert(seconds.take(0) =~= Seq::<Point>::empty());
    for i in 0..points_g1.len()
        invariant
            firsts == group::points(points_g1@),
            data@ == g1_transcript(firsts.take(i as int)),
    {
        let encoding = curve::g1_to_affine(&points_g1[i]).to_compressed();
        let ghost before = data@;
        data.extend_from_slice(&encoding);
        proof {
            let next = firsts.take(i + 1);
            assert(next.drop_last() =~= firsts.take(i as int));
            assert(next.last() == curve::g1_point(points_g1[i as int]));
            assert(data@ =~= before + encoding@);
        }
    }
    assert(firsts.take(points_g1@.len() as int) =~= firsts);
    let ghost head = data@;
    assert(head =~= head + g2_transcript(seconds.take(0)));
    for i in 0..points_g2.len()
        invariant
            seconds == group::points(points_g2@),
            data@ == head + g2_transcript(seconds.take(i as int)),
    {
        let encoding = curve::g2_to_affine(&points_g2[i]).to_compressed();
        let ghost before = data@;
        data.extend_from_slice(&encoding);
        proof {
            let next = seconds.take(i + 1);
            assert(next.drop_last() =~= seconds.take(i as int));
            assert(next.last() == curve::g2_point(points_g2[i as int]));
            assert(data@ =~= before + encoding@);
            assert(data@ =~= head + (g2_transcript(seconds.take(i as int)) + encoding@));
        }
    }
    assert(seconds.take(points_g2@.len() as int) =~= seconds);
    data
}

/// The challenge for two lists of points. There is none if every counter of four bytes leads to
/// a digest from the order on.
pub fn compute_challenge(points_g1: &Vec<G1Projective>, points_g2: &Vec<G2Projective>) -> (r:
    Option<Scalar>)
    ensures
        r is Some <==> challenge(group::points(points_g1@), group::points(points_g2@)) is Some,
        r matches Some(c) ==> curve::scalar_value(c) == challenge(
            group::points(points_g1@),
            group::points(points_g2@),
        )->0,
{
    let encodings = transcript(points_g1, points_g2);
    let ghost all = encodings@;
    let ghost candidates = |i: nat| challenge_candidate(all, i);
    let ghost wanted = challenge(group::points(points_g1@), group::points(points_g2@));
    let mut i: u32 = 0;
    loop
        invariant
            all == encodings@,
            candidates == (|i: nat| challenge_candidate(all, i)),
            wanted == challenge(group::points(points_g1@), group::points(points_g2@)),
            wanted == search(candidates, i as nat),
        decreases u32::MAX - i,
    {
        let i_data = counter_data(i);
        let mut data: Vec<u8> = Vec::new();
        data.extend_from_slice(&i_data);
        data.extend_from_slice(encodings.as_slice());
        assert(data@ =~= counter_bytes(i as nat) + all);
        let hash_result = digest::sha256(data.as_slice());
        let hash_data: [u8; 32] = clone_into_array(hash_result.as_slice());
        assert(hash_data@ =~= hash_result@);
        assert(candidates(i as nat) == challenge_candidate(all, i as nat));
        if let Some(challenge) = curve::scalar_from_bytes(&hash_data) {
            return Some(challenge);
        }
        if i == u32::MAX {
            assert(search(candidates, 0x1_0000_0000nat) is None);
            return None;
        }
        i = i + 1;
    }
}

/// The decimal digits of a number, in ASCII.
pub open spec fn decimal(n: nat) -> Seq<u8>
    decreases n,
{
    if n < 10 {
        seq![(48 + n) as u8]
    } else {
        decimal(n / 10).push((48 + n % 10) as u8)
    }
}

/// The message that is hashed to the generator with this index: the letter `h` and the index.
pub open spec fn label(index: nat) -> Seq<u8> {
    seq![104u8] + decimal(index)
}

fn decimal_digits(n: usize) -> (r: Vec<u8>)
    ensures
        r@ == decimal(n as nat),
    decreases n,
{
    if n < 10 {
        let digits: Vec<u8> = vec![48 + n as u8];
        assert(digits@ =~= decimal(n as nat));
        digits
    } else {
        let mut digits = decimal_digits(n / 10);
        digits.push(48 + (n % 10) as u8);
        digits
    }
}

/// The message that is hashed to the generator with this index.
pub fn generator_label(index: usize) -> (r: Vec<u8>)
    ensures
        r@ == label(index as nat),
{
    let mut message: Vec<u8> = vec![104u8];
    let digits = decimal_digits(index);
    message.extend_from_slice(digits.as_slice());
    assert(message@ =~= label(index as nat));
    message
}

/// The bytes of a counter are the four bytes of which the counter is the little-endian number.
pub proof fn law_counter_bytes(bytes: Seq<u8>)
    requires
        bytes.len() == 4,
    ensures
        field::little_endian(bytes) < 0x1_0000_0000nat,
        counter_bytes(field::little_endian(bytes)) == bytes,
{
    reveal_with_fuel(field::little_endian, 5);
    let (b0, b1, b2, b3) = (bytes[0], bytes[1], bytes[2], bytes[3]);
    assert(field::little_endian(bytes) == b0 + 256 * (b1 + 256 * (b2 + 256 * b3)));
    assert(counter_bytes(field::little_endian(bytes)) =~= bytes);
}

proof fn lemma_counter_value(i: nat)
    requires
        i < 0x1_0000_0000nat,
    ensures
        counter_bytes(i).len() == 4,
        field::little_endian(counter_bytes(i)) == i,
{
    reveal_with_fuel(field::little_endian, 5);
}

/// A search finds the candidate of the first counter that has one, and fails where none has.
pub proof fn law_search<T>(candidates: spec_fn(nat) -> Option<T>, i: nat)
    requires
        i < 0x1_0000_0000nat,
        forall|j: nat| j < i ==> (#[trigger] candidates(j)) is None,
    ensures
        candidates(i) is Some ==> search(candidates, 0) == candidates(i),
        candidates(i) is None && i == 0xffff_ffffnat ==> search(candidates, 0) is None,
{
    lemma_search_skip(candidates, 0, i);
    assert(search(candidates, 0x1_0000_0000nat) is None);
}

/// Counters without candidates may be left out of a search.
proof fn lemma_search_skip<T>(candidates: spec_fn(nat) -> Option<T>, from: nat, i: nat)
    requires
        from <= i < 0x1_0000_0000nat,
        forall|j: nat| from <= j < i ==> (#[trigger] candidates(j)) is None,
    ensures
        search(candidates, from) == search(candidates, i),
    decreases i - from,
{
    if from < i {
        assert(candidates(from) is None);
        lemma_search_skip(candidates, from + 1, i);
    }
}

/// The point of the curve that the SHA-512 digest of the message and the counter encodes.
proof fn lemma_hash_candidate(message: Seq<u8>, counter: Seq<u8>)
    requires
        counter.len() == 4,
    ensures
        hash_candidate(message, field::little_endian(counter)) is Some
            <==> curve::g1_decompressed(
            digest::sha512_digest(message + counter).subrange(0, 48),
        ) is Some,
        curve::g1_decompressed(
            digest::sha512_digest(message + counter).subrange(0, 48),
        ) matches Some(p) ==> hash_candidate(message, field::little_endian(counter)) == Some(
            cleared(p),
        ),
{
    law_counter_bytes(counter);
}

/// A message hashes to the point that the digest of the whole message and of a counter encodes,
/// brought into the group, for the first counter for which it encodes one.
pub proof fn law_hash_point(message: Seq<u8>, counter: Seq<u8>)
    requires
        counter.len() == 4,
        forall|earlier: Seq<u8>|
            earlier.len() == 4 && field::little_endian(earlier) < field::little_endian(counter)
                ==> curve::g1_decompressed(
                (#[trigger] digest::sha512_digest(message + earlier)).subrange(0, 48),
            ) is None,
    ensures
        curve::g1_decompressed(
            digest::sha512_digest(message + counter).subrange(0, 48),
        ) matches Some(CurvePoint::Member(k)) ==> hash_point(message) == Some(
            Point::Member((k * 0xd201000000010001nat) % field::order()),
        ),
        curve::g1_decompressed(
            digest::sha512_digest(message + counter).subrange(0, 48),
        ) matches Some(CurvePoint::Outside(place)) ==> hash_point(message) == Some(
            Point::Member(curve::g1_cleared(place)),
        ),
        curve::g1_decompressed(
            digest::sha512_digest(message + counter).subrange(0, 48),
        ) is None && field::little_endian(counter) == 0xffff_ffffnat ==> hash_point(message)
            is None,
{
    let candidates = |i: nat| hash_candidate(message, i);
    let n = field::little_endian(counter);
    law_counter_bytes(counter);
    assert forall|j: nat| j < n implies (#[trigger] candidates(j)) is None by {
        let earlier = counter_bytes(j);
        lemma_counter_value(j);
        lemma_hash_candidate(message, earlier);
        assert(curve::g1_decompressed(
            digest::sha512_digest(message + earlier).subrange(0, 48),
        ) is None);
    }
    lemma_hash_candidate(message, counter);
    law_search(candidates, n);
    assert(candidates(n) == hash_candidate(message, n));
    assert(hash_point(message) == search(candidates, 0));
    let found = curve::g1_decompressed(
        digest::sha512_digest(message + counter).subrange(0, 48),
    );
    if let Some(p) = found {
        assert(hash_point(message) == Some(cleared(p)));
        if let CurvePoint::Member(k) = p {
            field::lemma_order_large();
            field::lemma_reduce((k * curve::cofactor_factor()) as int);
            let factor = curve::cofactor_factor();
            assert(k * factor == k * 0xd201000000010001nat) by (nonlinear_arith)
                requires
                    factor == 0xd201000000010001nat,
            ;
        }
    }
}

/// The message that is hashed for a commitment is its whole encoding.
pub proof fn law_commit_hash(attribute_commit: Point, message: Seq<u8>)
    requires
        message == curve::g1_encoding(attribute_commit),
    ensures
        commit_hash(attribute_commit) == hash_point(message),
{
}

/// Each point stands at its place in the encodings of all.
proof fn lemma_transcript_positions(
    points_g1: Seq<Point>,
    points_g2: Seq<Point>,
    t: Seq<u8>,
)
    requires
        t.len() == 48 * points_g1.len() + 96 * points_g2.len(),
        forall|i: int|
            0 <= i < points_g1.len() ==> t.subrange(48 * i, 48 * i + 48) == curve::g1_encoding(
                #[trigger] points_g1[i],
            ),
        forall|i: int|
            0 <= i < points_g2.len() ==> t.subrange(
                48 * points_g1.len() + 96 * i,
                48 * points_g1.len() + 96 * i + 96,
            ) == curve::g2_encoding(#[trigger] points_g2[i]),
    ensures
        t == g1_transcript(points_g1) + g2_transcript(points_g2),
    decreases points_g1.len() + points_g2.len(),
{
    let n = points_g1.len() as int;
    if points_g2.len() > 0 {
        let m = points_g2.len() - 1;
        let before = points_g2.drop_last();
        let head = t.take(48 * n + 96 * m);
        assert forall|i: int| 0 <= i < n implies head.subrange(48 * i, 48 * i + 48)
            == curve::g1_encoding(#[trigger] points_g1[i]) by {
            assert(head.subrange(48 * i, 48 * i + 48) =~= t.subrange(48 * i, 48 * i + 48));
        }
        assert forall|i: int| 0 <= i < before.len() implies head.subrange(
            48 * n + 96 * i,
            48 * n + 96 * i + 96,
        ) == curve::g2_encoding(#[trigger] before[i]) by {
            assert(before[i] == points_g2[i]);
            assert(head.subrange(48 * n + 96 * i, 48 * n + 96 * i + 96) =~= t.subrange(
                48 * n + 96 * i,
                48 * n + 96 * i + 96,
            ));
        }
        lemma_transcript_positions(points_g1, before, head);
        let last = t.subrange(48 * n + 96 * m, 48 * n + 96 * m + 96);
        assert(points_g2.last() == points_g2[m]);
        assert(t =~= head + last);
        assert(g1_transcript(points_g1) + (g2_transcript(before) + last) =~= (g1_transcript(
            points_g1,
        ) + g2_transcript(before)) + last);
    } else if n > 0 {
        let before = points_g1.drop_last();
        let head = t.take(48 * (n - 1));
        assert forall|i: int| 0 <= i < before.len() implies head.subrange(48 * i, 48 * i + 48)
            == curve::g1_encoding(#[trigger] before[i]) by {
            assert(before[i] == points_g1[i]);
            assert(head.subrange(48 * i, 48 * i + 48) =~= t.subrange(48 * i, 48 * i + 48));
        }
        lemma_transcript_positions(before, points_g2, head);
        let last = t.subrange(48 * (n - 1), 48 * (n - 1) + 48);
        assert(points_g1.last() == points_g1[n - 1]);
        assert(t =~= head + last);
        assert(g2_transcript(points_g2) =~= Seq::<u8>::empty());
        assert(g1_transcript(before) + g2_transcript(points_g2) =~= g1_transcript(before));
        assert(g1_transcript(points_g1) + g2_transcript(points_g2) =~= g1_transcript(points_g1));
    } else {
        assert(t =~= g1_transcript(points_g1) + g2_transcript(points_g2));
    }
}

/// The challenge for points is the SHA-256 digest, as a number, of a counter and of bytes in which
/// every one of the points has its encoding at its own place, for the first counter for which the
/// number is below the order.
pub proof fn law_challenge(
    points_g1: Seq<Point>,
    points_g2: Seq<Point>,
    t: Seq<u8>,
    counter: Seq<u8>,
)
    requires
        t.len() == 48 * points_g1.len() + 96 * points_g2.len(),
        forall|i: int|
            0 <= i < points_g1.len() ==> t.subrange(48 * i, 48 * i + 48) == curve::g1_encoding(
                #[trigger] points_g1[i],
            ),
        forall|i: int|
            0 <= i < points_g2.len() ==> t.subrange(
                48 * points_g1.len() + 96 * i,
                48 * points_g1.len() + 96 * i + 96,
            ) == curve::g2_encoding(#[trigger] points_g2[i]),
        counter.len() == 4,
        forall|earlier: Seq<u8>|
            earlier.len() == 4 && field::little_endian(earlier) < field::little_endian(counter)
                ==> field::little_endian(#[trigger] digest::sha256_digest(earlier + t))
                >= field::order(),
    ensures
        field::little_endian(digest::sha256_digest(counter + t)) < field::order() ==> challenge(
            points_g1,
            points_g2,
        ) == Some(field::little_endian(digest::sha256_digest(counter + t))),
        field::little_endian(digest::sha256_digest(counter + t)) >= field::order()
            && field::little_endian(counter) == 0xffff_ffffnat ==> challenge(points_g1, points_g2)
            is None,
{
    lemma_transcript_positions(points_g1, points_g2, t);
    let candidates = |i: nat| challenge_candidate(t, i);
    let n = field::little_endian(counter);
    law_counter_bytes(counter);
    assert forall|j: nat| j < n implies (#[trigger] candidates(j)) is None by {
        let earlier = counter_bytes(j);
        lemma_counter_value(j);
        assert(field::little_endian(digest::sha256_digest(earlier + t)) >= field::order());
    }
    law_search(candidates, n);
    assert(candidates(n) == challenge_candidate(t, n));
}

/// The digits of a number are those of its tenth and its last one.
pub proof fn law_decimal(n: nat, d: nat)
    requires
        d < 10,
    ensures
        decimal(d) == seq![(48 + d) as u8],
        n > 0 ==> decimal(10 * n + d) == decimal(n).push((48 + d) as u8),
{
    assert((10 * n + d) / 10 == n && (10 * n + d) % 10 == d);
}

proof fn lemma_decimal_injective(i: nat, j: nat)
    requires
        decimal(i) == decimal(j),
    ensures
        i == j,
    decreases i,
{
    assert(decimal(i).len() >= 1 && decimal(j).len() >= 1);
    lemma_decimal_length(i);
    lemma_decimal_length(j);
    assert(decimal(i).last() == (48 + i % 10) as u8);
    assert(decimal(j).last() == (48 + j % 10) as u8);
    assert(i % 10 == j % 10);
    if i >= 10 {
        assert(decimal(i).drop_last() =~= decimal(i / 10));
        assert(decimal(j).drop_last() =~= decimal(j / 10));
        lemma_decimal_injective(i / 10, j / 10);
    }
}

proof fn lemma_decimal_length(i: nat)
    ensures
        decimal(i).len() >= 1,
        i >= 10 <==> decimal(i).len() >= 2,
    decreases i,
{
    if i >= 10 {
        lemma_decimal_length(i / 10);
    }
}

/// The label of a generator is the letter `h` and the digits of its index, and no two generators
/// have the same.
pub proof fn law_label(i: nat, j: nat)
    ensures
        label(i).len() == 1 + decimal(i).len(),
        label(i)[0] == 104,
        label(i).drop_first() == decimal(i),
        label(i) == label(j) ==> i == j,
{
    assert(label(i).drop_first() =~= decimal(i));
    assert(label(j).drop_first() =~= decimal(j));
    if label(i) == label(j) {
        lemma_decimal_injective(i, j);
    }
}

/// The points of the two types stand for what `bls12_381` says.
pub proof fn law_hashed_types(p: G1Affine, q: G1Projective)
    ensures
        p.place() == curve::g1_affine_point(p),
        q.place() == curve::g1_point(q),
{
}

} // verus!
