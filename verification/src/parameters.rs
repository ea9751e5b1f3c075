//! The public parameters of the scheme.
use vstd::prelude::*;

use bls12_381::{G1Affine, G1Projective, G2Affine, G2Projective, Scalar};

use crate::curve;
use crate::curve::Point;
use crate::group;
use crate::group::Group;
use crate::hashing;
use crate::hashing::HashableGenerator;
use crate::random;
use crate::random::{MyRandom, RandomSource};
use crate::types;

verus! {

/// The points among the parameters.
#[verifier::ext_equal]
pub struct Setup {
    pub g1: Point,
    pub hs: Seq<Point>,
    pub g2: Point,
}

impl Setup {
    /// The fixed generators, and for each attribute an element of the first group.
    pub open spec fn wf(self) -> bool {
        &&& self.g1 == Point::Member(1)
        &&& self.g2 == Point::Member(1)
        &&& forall|i: int| 0 <= i < self.hs.len() ==> (#[trigger] self.hs[i]) is Member
    }
}

/// Every generator up to this number has a point to which its label hashes.
pub open spec fn labels_hash(attributes_size: nat) -> bool {
    forall|i: nat| i < attributes_size ==> (#[trigger] hashing::hash_point(hashing::label(i))) is Some
}

/// The parameters for this number of attributes.
pub open spec fn standard_setup(attributes_size: nat) -> Setup {
    Setup {
        g1: Point::Member(1),
        hs: Seq::new(
            attributes_size,
            |i: int| hashing::hash_point(hashing::label(i as nat))->0,
        ),
        g2: Point::Member(1),
    }
}

/// What a list of affine points of the first group stands for.
pub open spec fn affine_points(list: Seq<G1Affine>) -> Seq<Point> {
    Seq::new(list.len(), |i: int| curve::g1_affine_point(list[i]))
}

/// The parameters, and the source of random numbers of whoever uses them.
pub struct Parameters<'a, T: RandomSource> {
    pub g1: G1Affine,
    pub hs: Vec<G1Affine>,
    pub g2: G2Affine,
    pub rng: &'a mut T,
}

impl<'a, T: RandomSource> Parameters<'a, T> {
    /// The points among the parameters.
    pub open spec fn setup(&self) -> Setup {
        Setup {
            g1: curve::g1_affine_point(self.g1),
            hs: affine_points(self.hs@),
            g2: curve::g2_affine_point(self.g2),
        }
    }

    /// Parameters for this number of attributes. There are none if the label of a generator does
    /// not hash to a point.
    pub fn new(attributes_size: usize, rng: &'a mut T) -> (r: Option<Self>)
        ensures
            r is Some <==> labels_hash(attributes_size as nat),
            r matches Some(params) ==> {
                &&& params.setup() == standard_setup(attributes_size as nat)
                &&& params.setup().wf()
                &&& *params.rng == *old(rng)
                &&& *final(params.rng) == *final(rng)
            },
            r is None ==> *final(rng) == *old(rng),
    {
        let g1 = G1Affine::generator();
        let g2 = G2Affine::generator();

        let mut hs: Vec<G1Affine> = Vec::new();
        for i in 0..attributes_size
            invariant
                hs@.len() == i,
                forall|j: nat|
                    j < i ==> (#[trigger] hashing::hash_point(hashing::label(j))) is Some,
                forall|j: int|
                    0 <= j < i ==> curve::g1_affine_point(#[trigger] hs@[j])
                        == hashing::hash_point(hashing::label(j as nat))->0,
                forall|j: int|
                    0 <= j < i ==> curve::g1_affine_point(#[trigger] hs@[j]) is Member,
        {
            let message = hashing::generator_label(i);
            match G1Affine::hash_to_point(message.as_slice()) {
                Some(h) => {
                    proof {
                        hashing::law_hash_in_group(message@);
                    }
                    hs.push(h);
                },
                None => {
                    return None;
                },
            }
        }
        let params = Parameters { g1, hs, g2, rng };
        assert(params.setup() =~= standard_setup(attributes_size as nat));
        Some(params)
    }

    /// A random scalar.
    pub fn random_scalar(&mut self) -> (r: Option<Scalar>)
        ensures
            final(self).setup() == old(self).setup(),
            *final(final(self).rng) == *final(old(self).rng),
            random::draws_scalar(*old(self).rng, types::maybe_scalar(r), *final(self).rng),
            r matches Some(s) ==> s.is_drawn(),
    {
        Scalar::new_random(self.rng)
    }

    /// A list of `n` random scalars.
    pub fn random_scalars(&mut self, n: usize) -> (r: Option<Vec<Scalar>>)
        ensures
            final(self).setup() == old(self).setup(),
            *final(final(self).rng) == *final(old(self).rng),
            r matches Some(list) ==> list@.len() == n && random::are_scalars(
                group::values(list@),
            ),
            random::draws_scalars(
                *old(self).rng,
                n as nat,
                types::maybe_scalars(r),
                *final(self).rng,
            ),
    {
        let mut list: Vec<Scalar> = Vec::new();
        let ghost mut states: Seq<T> = seq![*self.rng];
        for i in 0..n
            invariant
                self.setup() == old(self).setup(),
                *final(self.rng) == *final(old(self).rng),
                list@.len() == i,
                random::draws_all(states, group::values(list@)),
                states.first() == *old(self).rng,
                states.last() == *self.rng,
        {
            let ghost earlier = group::values(list@);
            match self.random_scalar() {
                Some(s) => {
                    list.push(s);
                    proof {
                        let passed = states;
                        states = passed.push(*self.rng);
                        let scalars = group::values(list@);
                        assert forall|j: int| 0 <= j < scalars.len() implies random::draws_scalar(
                            states[j],
                            Some(#[trigger] scalars[j]),
                            states[j + 1],
                        ) by {
                            if j < earlier.len() {
                                assert(scalars[j] == earlier[j]);
                            }
                        }
                    }
                },
                None => {
                    return None;
                },
            }
        }
        proof {
            let scalars = group::values(list@);
            assert(random::draws_list(*old(self).rng, scalars, *self.rng));
            random::lemma_drawn_scalars(*old(self).rng, n as nat, scalars, *self.rng);
        }
        Some(list)
    }

    /// The first generator taken `k` times.
    pub(crate) fn g1_multiple(&self, k: &Scalar) -> (r: G1Projective)
        ensures
            curve::g1_point(r) == Group::G1.multiple(self.setup().g1, curve::scalar_value(*k)),
    {
        curve::g1_multiply(&curve::g1_from_affine(&self.g1), k)
    }

    /// The second generator taken `k` times.
    pub(crate) fn g2_multiple(&self, k: &Scalar) -> (r: G2Projective)
        ensures
            curve::g2_point(r) == Group::G2.multiple(self.setup().g2, curve::scalar_value(*k)),
    {
        curve::g2_multiply(&curve::g2_from_affine(&self.g2), k)
    }

    /// The generators of the attributes in projective coordinates.
    pub(crate) fn attribute_generators(&self) -> (r: Vec<G1Projective>)
        ensures
            group::points(r@) == self.setup().hs,
    {
        let mut hs: Vec<G1Projective> = Vec::new();
        for i in 0..self.hs.len()
            invariant
                hs@.len() == i,
                forall|j: int|
                    0 <= j < i ==> curve::g1_point(#[trigger] hs@[j]) == curve::g1_affine_point(
                        self.hs@[j],
                    ),
        {
            hs.push(curve::g1_from_affine(&self.hs[i]));
        }
        assert(group::points(hs@) =~= self.setup().hs);
        hs
    }
}

/// The parameters for a number of attributes are the fixed generators and, for each attribute, the
/// point to which its own label hashes; and there are parameters where every label hashes.
pub proof fn law_standard_setup(n: nat, i: nat)
    ensures
        standard_setup(n).g1 == Point::Member(1),
        standard_setup(n).g2 == Point::Member(1),
        standard_setup(n).hs.len() == n,
        labels_hash(n) && i < n ==> hashing::hash_point(hashing::label(i)) == Some(
            standard_setup(n).hs[i as int],
        ),
        i < n && hashing::hash_point(hashing::label(i)) is None ==> !labels_hash(n),
        labels_hash(n) && hashing::hash_point(hashing::label(n)) is Some ==> labels_hash(n + 1),
        labels_hash(0),
{
}

/// Every point among the parameters stands for itself.
pub proof fn law_setup_view<T: RandomSource>(params: Parameters<T>, i: int)
    ensures
        params.setup().g1 == curve::g1_affine_point(params.g1),
        params.setup().g2 == curve::g2_affine_point(params.g2),
        params.setup().hs.len() == params.hs@.len(),
        0 <= i < params.hs@.len() ==> params.setup().hs[i] == curve::g1_affine_point(
            params.hs@[i],
        ),
{
}

/// Well-formed parameters hold the generators and elements of the first group only.
pub proof fn law_wf(setup: Setup, i: int)
    ensures
        setup.wf() ==> setup.g1 == Point::Member(1) && setup.g2 == Point::Member(1),
        setup.wf() && 0 <= i < setup.hs.len() ==> setup.hs[i] is Member,
{
}

} // verus!
