//! The computation of shares and of the weights that put them together again.
use vstd::prelude::*;

use bls12_381::Scalar;

use crate::curve;
use crate::field;
use crate::group;
use crate::interpolation;

verus! {

/// The value at `x_primitive` of the polynomial with these coefficients, that of the lowest
/// degree first.
pub fn compute_polynomial(coefficients: &Vec<Scalar>, x_primitive: u64) -> (r: Scalar)
    ensures
        curve::scalar_value(r) == interpolation::evaluate(
            group::values(coefficients@),
            x_primitive as nat,
        ),
{
    let x = curve::scalar_from_u64(x_primitive);
    let mut result = Scalar::zero();
    let ghost all = group::values(coefficients@);
    proof {
        field::lemma_order_large();
        field::lemma_reduce_small(0);
        assert(all.take(0) =~= Seq::<nat>::empty());
    }
    for i in 0..coefficients.len()
        invariant
            all == group::values(coefficients@),
            curve::scalar_value(x) == x_primitive,
            curve::scalar_value(result) == interpolation::evaluate(
                all.take(i as int),
                x_primitive as nat,
            ),
    {
        let exponent = [i as u64, 0, 0, 0];
        let power = x.pow(&exponent);
        let term = curve::scalar_multiply(&coefficients[i], &power);
        let ghost before = interpolation::polynomial(all.take(i as int), x_primitive as int);
        result = curve::scalar_add(&result, &term);
        proof {
            let next = all.take(i + 1);
            assert(next.drop_last() =~= all.take(i as int));
            assert(next.last() == all[i as int]);
            interpolation::lemma_last_term(next, x_primitive as int);
            let c = all[i as int] as int;
            let p = vstd::arithmetic::power::pow(x_primitive as int, i as nat);
            field::lemma_reduce(p);
            field::lemma_multiply(c, c, curve::scalar_value(power) as int, p);
            field::lemma_reduce(c * curve::scalar_value(power));
            field::lemma_reduce(before);
            field::lemma_add(
                field::reduce(before) as int,
                before,
                curve::scalar_value(term) as int,
                c * p,
            );
        }
    }
    assert(all.take(coefficients@.len() as int) =~= all);
    result
}

/// The nodes that a list of indexes stands for.
pub open spec fn nodes(indexes: Seq<u64>) -> Seq<nat> {
    Seq::new(indexes.len(), |i: int| indexes[i] as nat)
}

/// The weight of the index `x` among all the indexes.
pub fn lagrange_weight(indexes: &Vec<u64>, x: u64) -> (r: Scalar)
    ensures
        curve::scalar_value(r) == interpolation::weight(nodes(indexes@), x as nat),
{
    let zero = Scalar::zero();
    let mut numerator = Scalar::one();
    let mut denominator = Scalar::one();
    let ghost all = nodes(indexes@);
    proof {
        field::lemma_order_large();
        field::lemma_reduce_small(1);
        assert(all.take(0) =~= Seq::<nat>::empty());
    }
    for k in 0..indexes.len()
        invariant
            all == nodes(indexes@),
            curve::scalar_value(zero) == 0,
            curve::scalar_value(numerator) == field::reduce(
                interpolation::numerator(all.take(k as int), x as nat),
            ),
            curve::scalar_value(denominator) == field::reduce(
                interpolation::denominator(all.take(k as int), x as nat),
            ),
    {
        let j: u64 = indexes[k];
        let ghost n = interpolation::numerator(all.take(k as int), x as nat);
        let ghost d = interpolation::denominator(all.take(k as int), x as nat);
        proof {
            let next = all.take(k + 1);
            assert(next.drop_last() =~= all.take(k as int));
            assert(next.last() == j);
            assert(n * 1 == n && d * 1 == d) by (nonlinear_arith);
        }
        if j != x {
            let node = curve::scalar_from_u64(j);
            let from_zero = curve::scalar_subtract(&zero, &node);
            let this = curve::scalar_from_u64(x);
            let from_this = curve::scalar_subtract(&this, &node);
            proof {
                lemma_times(n, 0 - j);
                lemma_times(d, x - j);
            }
            numerator = curve::scalar_multiply(&numerator, &from_zero);
            denominator = curve::scalar_multiply(&denominator, &from_this);
        }
    }
    assert(all.take(indexes@.len() as int) =~= all);
    proof {
        interpolation::lemma_denominator(all, x as nat);
        field::lemma_unit_nonzero(interpolation::denominator(all, x as nat));
    }
    let inverse = curve::scalar_invert(&denominator).unwrap();
    let weight = curve::scalar_multiply(&numerator, &inverse);
    proof {
        let n = interpolation::numerator(all, x as nat);
        let d = interpolation::denominator(all, x as nat);
        let u = curve::scalar_value(inverse) as int;
        let w = curve::scalar_value(weight) as int;
        field::lemma_reduce(n);
        field::lemma_reduce(d);
        field::lemma_multiply(u, u, curve::scalar_value(denominator) as int, d);
        assert(field::inverts(u, d));
        field::lemma_reduce(curve::scalar_value(numerator) * u);
        field::lemma_multiply(curve::scalar_value(numerator) as int, n, u, u);
        field::lemma_multiply(w, n * u, d, d);
        field::lemma_multiply(n, n, u * d, 1);
        assert((n * u) * d == n * (u * d) && n * 1 == n) by (nonlinear_arith);
        interpolation::lemma_weight_unique(
            curve::scalar_value(weight),
            interpolation::weight(all, x as nat),
            all,
            x as nat,
        );
    }
    weight
}

/// A product may be reduced before and after the last factor.
proof fn lemma_times(a: int, b: int)
    ensures
        field::reduce((field::reduce(a) * field::reduce(b)) as int) == field::reduce(a * b),
{
    field::lemma_reduce(a);
    field::lemma_reduce(b);
    field::lemma_multiply(field::reduce(a) as int, a, field::reduce(b) as int, b);
}

/// The weights of the indexes `1, 2, .., range_len`.
pub fn lagrange_basis(range_len: u64) -> (r: Vec<Scalar>)
    ensures
        group::values(r@) == interpolation::basis(interpolation::first_nodes(range_len as nat)),
{
    let mut indexes: Vec<u64> = Vec::new();
    let mut i: u64 = 0;
    while i < range_len
        invariant
            i <= range_len,
            indexes@.len() == i,
            forall|j: int| 0 <= j < i ==> #[trigger] indexes@[j] == j + 1,
        decreases range_len - i,
    {
        i = i + 1;
        indexes.push(i);
    }
    assert(nodes(indexes@) =~= interpolation::first_nodes(range_len as nat));
    lagrange_basis2(&indexes)
}

/// The weights of the indexes, in their order.
pub fn lagrange_basis2(indexes: &Vec<u64>) -> (r: Vec<Scalar>)
    ensures
        group::values(r@) == interpolation::basis(nodes(indexes@)),
{
    let mut lagrange_result: Vec<Scalar> = Vec::new();
    for i in 0..indexes.len()
        invariant
            lagrange_result@.len() == i,
            forall|j: int|
                0 <= j < i ==> curve::scalar_value(#[trigger] lagrange_result@[j])
                    == interpolation::weight(nodes(indexes@), indexes@[j] as nat),
    {
        let weight = lagrange_weight(indexes, indexes[i]);
        lagrange_result.push(weight);
    }
    assert(group::values(lagrange_result@) =~= interpolation::basis(nodes(indexes@)));
    lagrange_result
}

/// The nodes are the indexes.
pub proof fn law_nodes(indexes: Seq<u64>, i: int)
    requires
        0 <= i < indexes.len(),
    ensures
        nodes(indexes).len() == indexes.len(),
        nodes(indexes)[i] == indexes[i],
{
}

} // verus!
