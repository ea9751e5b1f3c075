//! The two groups of points, and sums of points in them.
use vstd::prelude::*;

use bls12_381::{G1Projective, G2Projective, Scalar};

use crate::curve;
use crate::curve::Point;
use crate::field;
use crate::interpolation;

verus! {

/// The two groups between which the pairing is defined.
pub enum Group {
    G1,
    G2,
}

impl Group {
    /// The sum of two points.
    pub open spec fn sum(self, a: Point, b: Point) -> Point {
        match (a, b) {
            (Point::Member(i), Point::Member(j)) => Point::Member(field::reduce((i + j) as int)),
            (p, q) => match self {
                Group::G1 => curve::g1_stray_sum(p, q),
                Group::G2 => curve::g2_stray_sum(p, q),
            },
        }
    }

    /// The point `p` taken `k` times.
    pub open spec fn multiple(self, p: Point, k: nat) -> Point {
        match p {
            Point::Member(i) => Point::Member(field::reduce((i * k) as int)),
            p => match self {
                Group::G1 => curve::g1_stray_multiple(p, k),
                Group::G2 => curve::g2_stray_multiple(p, k),
            },
        }
    }

    /// The sum of all the points, added up from the first to the last.
    pub open spec fn total(self, points: Seq<Point>) -> Point
        decreases points.len(),
    {
        if points.len() == 0 {
            Point::Member(0)
        } else {
            self.sum(self.total(points.drop_last()), points.last())
        }
    }

    /// The multiples of the points by the factors at the same place, as far as both lists go.
    pub open spec fn multiples(self, points: Seq<Point>, factors: Seq<nat>) -> Seq<Point> {
        Seq::new(
            shorter(points.len(), factors.len()),
            |i: int| self.multiple(points[i], factors[i]),
        )
    }

    /// The sum of the multiples of the points by the factors at the same place, as far as both
    /// lists go.
    pub open spec fn combination(self, points: Seq<Point>, factors: Seq<nat>) -> Point {
        self.total(self.multiples(points, factors))
    }
}

/// The difference of two points of the first group.
pub open spec fn difference(a: Point, b: Point) -> Point {
    match (a, b) {
        (Point::Member(i), Point::Member(j)) => Point::Member(field::reduce(i - j)),
        (p, q) => curve::g1_stray_difference(p, q),
    }
}

/// The smaller of two lengths.
pub open spec fn shorter(a: nat, b: nat) -> nat {
    if a <= b {
        a
    } else {
        b
    }
}

/// The values of a list of scalars.
pub open spec fn values(scalars: Seq<Scalar>) -> Seq<nat> {
    Seq::new(scalars.len(), |i: int| curve::scalar_value(scalars[i]))
}

/// What a list of points stands for.
pub open spec fn points<G: GeneratorPoint>(list: Seq<G>) -> Seq<Point> {
    Seq::new(list.len(), |i: int| list[i].point())
}

/// Points that can be added up.
pub trait GeneratorPoint: Sized {
    /// The group to which the points belong.
    spec fn group() -> Group;

    /// What the value stands for.
    spec fn point(&self) -> Point;

    /// The neutral element.
    fn get_identity() -> (r: Self)
        ensures
            r.point() == Point::Member(0),
    ;

    /// The sum of two points.
    fn add(&self, rhs: &Self) -> (r: Self)
        ensures
            r.point() == Self::group().sum(self.point(), rhs.point()),
    ;
}

/// Points that can be multiplied by a scalar.
pub trait ScalarMultiple: GeneratorPoint {
    /// The point taken `k` times.
    fn multiple(&self, k: &Scalar) -> (r: Self)
        ensures
            r.point() == Self::group().multiple(self.point(), curve::scalar_value(*k)),
    ;
}

impl GeneratorPoint for G1Projective {
    open spec fn group() -> Group {
        Group::G1
    }

    open spec fn point(&self) -> Point {
        curve::g1_point(*self)
    }

    fn get_identity() -> (r: Self) {
        G1Projective::identity()
    }

    fn add(&self, rhs: &Self) -> (r: Self) {
        curve::g1_add(self, rhs)
    }
}

impl ScalarMultiple for G1Projective {
    fn multiple(&self, k: &Scalar) -> (r: Self) {
        curve::g1_multiply(self, k)
    }
}

impl GeneratorPoint for G2Projective {
    open spec fn group() -> Group {
        Group::G2
    }

    open spec fn point(&self) -> Point {
        curve::g2_point(*self)
    }

    fn get_identity() -> (r: Self) {
        G2Projective::identity()
    }

    fn add(&self, rhs: &Self) -> (r: Self) {
        curve::g2_add(self, rhs)
    }
}

impl ScalarMultiple for G2Projective {
    fn multiple(&self, k: &Scalar) -> (r: Self) {
        curve::g2_multiply(self, k)
    }
}

/// The sum of a list of points.
pub fn ecc_sum<G: GeneratorPoint>(points: &Vec<G>) -> (r: G)
    ensures
        r.point() == G::group().total(self::points(points@)),
{
    let mut result = G::get_identity();
    let ghost all = self::points(points@);
    assert(all.take(0) =~= Seq::<Point>::empty());
    for i in 0..points.len()
        invariant
            all == self::points(points@),
            result.point() == G::group().total(all.take(i as int)),
    {
        result = result.add(&points[i]);
        proof {
            let next = all.take(i + 1);
            assert(next.drop_last() =~= all.take(i as int));
            assert(next.last() == points[i as int].point());
        }
    }
    assert(all.take(points@.len() as int) =~= all);
    result
}

/// The sum of a list of points of the second group.
pub fn ec_sum(points: &Vec<G2Projective>) -> (r: G2Projective)
    ensures
        curve::g2_point(r) == Group::G2.total(self::points(points@)),
{
    ecc_sum(points)
}

/// The multiples of the points by the factors at the same place, as far as both lists go.
pub fn multiples<G: ScalarMultiple>(points: &Vec<G>, factors: &Vec<Scalar>) -> (r: Vec<G>)
    ensures
        self::points(r@) == G::group().multiples(self::points(points@), values(factors@)),
{
    let n: usize = if points.len() <= factors.len() {
        points.len()
    } else {
        factors.len()
    };
    let mut list: Vec<G> = Vec::new();
    for i in 0..n
        invariant
            n <= points.len(),
            n <= factors.len(),
            list.len() == i,
            forall|j: int|
                0 <= j < i ==> (#[trigger] list[j]).point() == G::group().multiple(
                    points[j].point(),
                    curve::scalar_value(factors[j]),
                ),
    {
        list.push(points[i].multiple(&factors[i]));
    }
    assert(self::points(list@) =~= G::group().multiples(self::points(points@), values(factors@)));
    list
}

/// The sum of the multiples of the points by the factors at the same place, as far as both lists
/// go.
pub fn combination<G: ScalarMultiple>(points: &Vec<G>, factors: &Vec<Scalar>) -> (r: G)
    ensures
        r.point() == G::group().combination(self::points(points@), values(factors@)),
{
    ecc_sum(&multiples(points, factors))
}

/// The multiple of the generator whose factor is `x`, reduced.
pub open spec fn member(x: int) -> Point {
    Point::Member(field::reduce(x))
}

/// The point `p` is in the group, and it is `x` times the generator.
pub open spec fn is_log(p: Point, x: int) -> bool {
    p matches Point::Member(i) && field::congruent(i as int, x)
}

pub proof fn lemma_member(x: int)
    ensures
        is_log(member(x), x),
{
    field::lemma_reduce(x);
}

pub proof fn lemma_sum(g: Group, p: Point, x: int, q: Point, y: int)
    requires
        is_log(p, x),
        is_log(q, y),
    ensures
        g.sum(p, q) == member(x + y),
        is_log(g.sum(p, q), x + y),
{
    field::lemma_add(p->Member_0 as int, x, q->Member_0 as int, y);
    lemma_member(x + y);
}

pub proof fn lemma_difference(p: Point, x: int, q: Point, y: int)
    requires
        is_log(p, x),
        is_log(q, y),
    ensures
        difference(p, q) == member(x - y),
        is_log(difference(p, q), x - y),
{
    field::lemma_subtract(p->Member_0 as int, x, q->Member_0 as int, y);
    lemma_member(x - y);
}

pub proof fn lemma_multiple(g: Group, p: Point, x: int, k: nat, y: int)
    requires
        is_log(p, x),
        field::congruent(k as int, y),
    ensures
        g.multiple(p, k) == member(x * y),
        is_log(g.multiple(p, k), x * y),
{
    field::lemma_multiply(p->Member_0 as int, x, k as int, y);
    lemma_member(x * y);
}

/// The sum of points in the group is the multiple by the sum of their factors.
pub proof fn lemma_total(g: Group, points: Seq<Point>, f: spec_fn(int) -> int)
    requires
        forall|i: int| 0 <= i < points.len() ==> is_log(#[trigger] points[i], f(i)),
    ensures
        g.total(points) == member(interpolation::sigma(points.len(), f)),
    decreases points.len(),
{
    if points.len() == 0 {
        field::lemma_order_large();
        field::lemma_reduce_small(0);
    } else {
        let n = points.len();
        let before = points.drop_last();
        assert forall|i: int| 0 <= i < before.len() implies is_log(#[trigger] before[i], f(i)) by {
            assert(before[i] == points[i]);
        }
        lemma_total(g, before, f);
        let s = interpolation::sigma((n - 1) as nat, f);
        lemma_member(s);
        lemma_sum(g, g.total(before), s, points.last(), f(n - 1));
    }
}

/// The sum of the products of the entries of `a` and `b` at the same place, as far as both go.
pub open spec fn inner(a: Seq<int>, b: Seq<int>) -> int {
    interpolation::sigma(shorter(a.len(), b.len()), |i: int| a[i] * b[i])
}

/// The same numbers as integers.
pub open spec fn ints(numbers: Seq<nat>) -> Seq<int> {
    Seq::new(numbers.len(), |i: int| numbers[i] as int)
}

/// The points are in the group, and they are multiples of the generator by `logs`.
pub open spec fn are_logs(points: Seq<Point>, logs: Seq<int>) -> bool {
    &&& points.len() == logs.len()
    &&& forall|i: int| 0 <= i < points.len() ==> is_log(#[trigger] points[i], logs[i])
}

/// The numbers are congruent one by one.
pub open spec fn all_congruent(a: Seq<nat>, b: Seq<int>) -> bool {
    &&& a.len() == b.len()
    &&& forall|i: int| 0 <= i < a.len() ==> field::congruent(#[trigger] a[i] as int, b[i])
}

/// The combination of points in the group is the multiple by the combination of their factors.
pub proof fn lemma_combination(
    g: Group,
    points: Seq<Point>,
    logs: Seq<int>,
    factors: Seq<nat>,
    ks: Seq<int>,
)
    requires
        are_logs(points, logs),
        all_congruent(factors, ks),
    ensures
        g.combination(points, factors) == member(inner(logs, ks)),
        is_log(g.combination(points, factors), inner(logs, ks)),
{
    let products = g.multiples(points, factors);
    let f = |i: int| logs[i] * ks[i];
    assert forall|i: int| 0 <= i < products.len() implies is_log(#[trigger] products[i], f(i)) by {
        assert(is_log(points[i], logs[i]));
        assert(field::congruent(factors[i] as int, ks[i]));
        lemma_multiple(g, points[i], logs[i], factors[i], ks[i]);
    }
    lemma_total(g, products, f);
    lemma_member(inner(logs, ks));
}

/// A combination of combinations, with the same factors on one side.
pub proof fn lemma_inner_linear(
    a: Seq<int>,
    s: int,
    b: Seq<int>,
    t: int,
    c: Seq<int>,
    d: Seq<int>,
)
    requires
        b.len() == d.len(),
        c.len() == d.len(),
        forall|i: int|
            0 <= i < shorter(a.len(), d.len()) ==> #[trigger] d[i] == s * b[i] + t * c[i],
    ensures
        inner(a, d) == s * inner(a, b) + t * inner(a, c),
{
    let n = shorter(a.len(), d.len());
    let f = |i: int| a[i] * b[i];
    let g = |i: int| a[i] * c[i];
    let h = |i: int| a[i] * d[i];
    assert forall|i: int| 0 <= i < n implies #[trigger] h(i) == s * f(i) + t * g(i) by {
        let x = a[i];
        let y = b[i];
        let z = c[i];
        assert(d[i] == s * b[i] + t * c[i]);
        assert(x * (s * y + t * z) == s * (x * y) + t * (x * z)) by (nonlinear_arith);
    }
    interpolation::lemma_sigma_linear(n, h, s, f, t, g);
}

/// The two sides of a combination may be exchanged.
pub proof fn lemma_inner_commutes(a: Seq<int>, b: Seq<int>)
    ensures
        inner(a, b) == inner(b, a),
{
    let n = shorter(a.len(), b.len());
    let f = |i: int| a[i] * b[i];
    let g = |i: int| b[i] * a[i];
    assert forall|i: int| 0 <= i < n implies #[trigger] f(i) == g(i) by {
        let x = a[i];
        let y = b[i];
        assert(x * y == y * x) by (nonlinear_arith);
    }
    interpolation::lemma_sigma_equal(n, f, g);
}

pub proof fn lemma_inner_ints(a: Seq<nat>, b: Seq<nat>)
    ensures
        inner(ints(a), ints(b)) == interpolation::dot(a, b),
{
    let n = shorter(a.len(), b.len());
    interpolation::lemma_sigma_equal(
        n,
        |i: int| ints(a)[i] * ints(b)[i],
        |i: int| a[i] as int * b[i] as int,
    );
}

/// The operations of the groups, in numbers: points in a group add, multiply and subtract as the
/// multiples of the generator that they are, and of other points they are what the curve makes of
/// them.
pub proof fn law_group_operations(g: Group, i: nat, j: nat, p: Point, q: Point, k: nat)
    ensures
        g.sum(Point::Member(i), Point::Member(j)) == Point::Member(
            ((i + j) as int % (field::order() as int)) as nat,
        ),
        g.multiple(Point::Member(i), k) == Point::Member(
            ((i * k) as int % (field::order() as int)) as nat,
        ),
        difference(Point::Member(i), Point::Member(j)) == Point::Member(
            ((i - j) % (field::order() as int)) as nat,
        ),
        !(p is Member && q is Member) ==> Group::G1.sum(p, q) == curve::g1_stray_sum(p, q),
        !(p is Member && q is Member) ==> Group::G2.sum(p, q) == curve::g2_stray_sum(p, q),
        !(p is Member && q is Member) ==> difference(p, q) == curve::g1_stray_difference(p, q),
        !(p is Member) ==> Group::G1.multiple(p, k) == curve::g1_stray_multiple(p, k),
        !(p is Member) ==> Group::G2.multiple(p, k) == curve::g2_stray_multiple(p, k),
{
}

/// A sum of points starts at the neutral element, and grows by the next point.
pub proof fn law_total(g: Group, points: Seq<Point>, next: Point)
    ensures
        g.total(Seq::empty()) == Point::Member(0),
        g.total(points.push(next)) == g.sum(g.total(points), next),
{
    assert(points.push(next).drop_last() =~= points);
}

/// A combination grows by the multiple of the next point by the next factor, and what one list
/// has more than the other does not count.
pub proof fn law_combination(
    g: Group,
    points: Seq<Point>,
    factors: Seq<nat>,
    p: Point,
    k: nat,
    more_points: Seq<Point>,
    more_factors: Seq<nat>,
)
    requires
        points.len() == factors.len(),
    ensures
        g.combination(Seq::empty(), more_factors) == Point::Member(0),
        g.combination(points.push(p), factors.push(k)) == g.sum(
            g.combination(points, factors),
            g.multiple(p, k),
        ),
        g.combination(points + more_points, factors) == g.combination(points, factors),
        g.combination(points, factors + more_factors) == g.combination(points, factors),
{
    let products = g.multiples(points, factors);
    let empty = Seq::<Point>::empty();
    assert(g.multiples(empty, more_factors) =~= Seq::<Point>::empty());
    assert(g.multiples(points.push(p), factors.push(k)) =~= products.push(g.multiple(p, k)));
    law_total(g, products, g.multiple(p, k));
    assert(g.multiples(points + more_points, factors) =~= products);
    assert(g.multiples(points, factors + more_factors) =~= products);
}

/// Lists of scalars and points stand for the lists of what their entries stand for.
pub proof fn law_list_views<G: GeneratorPoint>(scalars: Seq<Scalar>, list: Seq<G>, i: int)
    ensures
        values(scalars).len() == scalars.len(),
        0 <= i < scalars.len() ==> values(scalars)[i] == curve::scalar_value(scalars[i]),
        points(list).len() == list.len(),
        0 <= i < list.len() ==> points(list)[i] == list[i].point(),
{
}

/// The points of the two types are elements of the two groups.
pub proof fn law_point_types(p: G1Projective, q: G2Projective)
    ensures
        p.point() == curve::g1_point(p),
        q.point() == curve::g2_point(q),
        G1Projective::group() == Group::G1,
        G2Projective::group() == Group::G2,
{
}

/// The multiples of points are those by the factors at the same place, as far as both lists go.
pub proof fn law_multiples(g: Group, points: Seq<Point>, factors: Seq<nat>, i: int)
    ensures
        points.len() <= factors.len() ==> g.multiples(points, factors).len() == points.len(),
        factors.len() <= points.len() ==> g.multiples(points, factors).len() == factors.len(),
        0 <= i < points.len() && i < factors.len() ==> g.multiples(points, factors)[i]
            == g.multiple(points[i], factors[i]),
{
}

} // verus!
