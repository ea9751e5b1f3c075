//! Polynomials over the scalar field and the weights that recover their constant term.
use vstd::prelude::*;

use crate::field;
use crate::units;

verus! {

/// The sum of `f(0)`, `f(1)` and so on up to `f(n - 1)`.
pub open spec fn sigma(n: nat, f: spec_fn(int) -> int) -> int
    decreases n,
{
    if n == 0 {
        0
    } else {
        sigma((n - 1) as nat, f) + f(n - 1)
    }
}

/// The value at `x` of the polynomial whose coefficients are `coefficients`, that of the lowest
/// degree first, before it is reduced modulo the order.
pub open spec fn polynomial(coefficients: Seq<nat>, x: int) -> int
    decreases coefficients.len(),
{
    if coefficients.len() == 0 {
        0
    } else {
        coefficients[0] + x * polynomial(coefficients.drop_first(), x)
    }
}

/// The value at `x` of the polynomial with these coefficients, as a scalar.
pub open spec fn evaluate(coefficients: Seq<nat>, x: nat) -> nat {
    field::reduce(polynomial(coefficients, x as int))
}

/// The product of `0 - y` over the nodes `y` that differ from `x`.
pub open spec fn numerator(nodes: Seq<nat>, x: nat) -> int
    decreases nodes.len(),
{
    if nodes.len() == 0 {
        1
    } else {
        numerator(nodes.drop_last(), x) * (if nodes.last() == x {
            1
        } else {
            0 - nodes.last()
        })
    }
}

/// The product of `x - y` over the nodes `y` that differ from `x`.
pub open spec fn denominator(nodes: Seq<nat>, x: nat) -> int
    decreases nodes.len(),
{
    if nodes.len() == 0 {
        1
    } else {
        denominator(nodes.drop_last(), x) * (if nodes.last() == x {
            1
        } else {
            x - nodes.last()
        })
    }
}

/// The scalar `weight` is the quotient of [`numerator`] by [`denominator`] at `x`: the value at
/// zero of the Lagrange polynomial of the node `x`.
pub open spec fn is_weight(weight: nat, nodes: Seq<nat>, x: nat) -> bool {
    &&& weight < field::order()
    &&& field::is_unit(denominator(nodes, x))
    &&& field::congruent(weight * denominator(nodes, x), numerator(nodes, x))
}

/// One weight for each of the nodes.
pub open spec fn is_basis(weights: Seq<nat>, nodes: Seq<nat>) -> bool {
    &&& weights.len() == nodes.len()
    &&& forall|i: int| 0 <= i < nodes.len() ==> is_weight(#[trigger] weights[i], nodes, nodes[i])
}

/// The sum of the products of the entries of `a` and `b` at the same place, as far as both go,
/// before it is reduced modulo the order.
pub open spec fn dot(a: Seq<nat>, b: Seq<nat>) -> int {
    sigma(
        if a.len() <= b.len() {
            a.len()
        } else {
            b.len()
        },
        |i: int| a[i] as int * b[i] as int,
    )
}

/// The nodes `1, 2, .., n`.
pub open spec fn first_nodes(n: nat) -> Seq<nat> {
    Seq::new(n, |i: int| (i + 1) as nat)
}

/// A node has only one weight.
pub proof fn lemma_weight_unique(a: nat, b: nat, nodes: Seq<nat>, x: nat)
    requires
        is_weight(a, nodes, x),
        is_weight(b, nodes, x),
    ensures
        a == b,
{
    let d = denominator(nodes, x);
    assert(d * a == a * d && d * b == b * d) by (nonlinear_arith);
    field::lemma_cancel(d, a as int, b as int);
    field::lemma_reduce_small(a);
    field::lemma_reduce_small(b);
}

/// The weight of the node `x`, where it has one.
pub open spec fn weight(nodes: Seq<nat>, x: nat) -> nat {
    choose|w: nat| is_weight(w, nodes, x)
}

/// The weights of the nodes, in their order.
pub open spec fn basis(nodes: Seq<nat>) -> Seq<nat> {
    Seq::new(nodes.len(), |i: int| weight(nodes, nodes[i]))
}

/// The nodes are machine integers.
pub open spec fn are_indexes(nodes: Seq<nat>) -> bool {
    forall|i: int| 0 <= i < nodes.len() ==> #[trigger] nodes[i] <= u64::MAX
}

/// The difference of distinct machine integers is not a multiple of the order.
pub proof fn lemma_distinct(x: nat, y: nat)
    requires
        x != y,
        x <= u64::MAX,
        y <= u64::MAX,
    ensures
        !field::congruent(x - y, 0),
{
    field::lemma_order_large();
    field::lemma_reduce_small(0);
    if x > y {
        field::lemma_reduce_small((x - y) as nat);
    } else {
        vstd::arithmetic::div_mod::lemma_mod_add_multiples_vanish(x - y, field::order() as int);
        field::lemma_reduce_small((x - y + field::order()) as nat);
    }
}

/// The denominator of the weight of a machine integer among machine integers is a unit.
pub proof fn lemma_denominator(nodes: Seq<nat>, x: nat)
    requires
        are_indexes(nodes),
        x <= u64::MAX,
    ensures
        field::is_unit(denominator(nodes, x)),
    decreases nodes.len(),
{
    if nodes.len() == 0 {
        assert(field::inverts(1, 1));
    } else {
        let y = nodes.last();
        assert forall|i: int| 0 <= i < nodes.drop_last().len() implies #[trigger] nodes.drop_last()[i]
            <= u64::MAX by {
            assert(nodes.drop_last()[i] == nodes[i]);
        }
        lemma_denominator(nodes.drop_last(), x);
        if y == x {
            assert(field::inverts(1, 1));
            field::lemma_unit_product(denominator(nodes.drop_last(), x), 1);
        } else {
            lemma_distinct(x, y);
            units::lemma_unit(x - y);
            field::lemma_unit_product(denominator(nodes.drop_last(), x), x - y);
        }
    }
}

/// A machine integer has a weight among machine integers.
proof fn lemma_weight_exists(nodes: Seq<nat>, x: nat)
    requires
        are_indexes(nodes),
        x <= u64::MAX,
    ensures
        is_weight(weight(nodes, x), nodes, x),
{
    let d = denominator(nodes, x);
    let n = numerator(nodes, x);
    lemma_denominator(nodes, x);
    let u = choose|u: int| field::inverts(u, d);
    let w = field::reduce(n * u);
    field::lemma_reduce(n * u);
    field::lemma_multiply(w as int, n * u, d, d);
    field::lemma_multiply(n, n, u * d, 1);
    assert((n * u) * d == n * (u * d) && n * 1 == n) by (nonlinear_arith);
    assert(is_weight(w, nodes, x));
}

/// Machine integers have weights.
pub proof fn lemma_basis_exists(nodes: Seq<nat>)
    requires
        are_indexes(nodes),
    ensures
        is_basis(basis(nodes), nodes),
{
    let weights = basis(nodes);
    assert forall|i: int| 0 <= i < nodes.len() implies is_weight(
        #[trigger] weights[i],
        nodes,
        nodes[i],
    ) by {
        lemma_weight_exists(nodes, nodes[i]);
    }
}

pub proof fn lemma_sigma_congruent(n: nat, f: spec_fn(int) -> int, g: spec_fn(int) -> int)
    requires
        forall|i: int| 0 <= i < n ==> field::congruent(#[trigger] f(i), g(i)),
    ensures
        field::congruent(sigma(n, f), sigma(n, g)),
    decreases n,
{
    if n > 0 {
        lemma_sigma_congruent((n - 1) as nat, f, g);
        field::lemma_add(sigma((n - 1) as nat, f), sigma((n - 1) as nat, g), f(n - 1), g(n - 1));
    }
}

pub proof fn lemma_sigma_equal(n: nat, f: spec_fn(int) -> int, g: spec_fn(int) -> int)
    requires
        forall|i: int| 0 <= i < n ==> #[trigger] f(i) == g(i),
    ensures
        sigma(n, f) == sigma(n, g),
    decreases n,
{
    if n > 0 {
        lemma_sigma_equal((n - 1) as nat, f, g);
    }
}

/// A sum of terms `a * f(i) + b * g(i)` is the same combination of the two sums.
pub proof fn lemma_sigma_linear(
    n: nat,
    h: spec_fn(int) -> int,
    a: int,
    f: spec_fn(int) -> int,
    b: int,
    g: spec_fn(int) -> int,
)
    requires
        forall|i: int| 0 <= i < n ==> #[trigger] h(i) == a * f(i) + b * g(i),
    ensures
        sigma(n, h) == a * sigma(n, f) + b * sigma(n, g),
    decreases n,
{
    if n > 0 {
        lemma_sigma_linear((n - 1) as nat, h, a, f, b, g);
        let s = sigma((n - 1) as nat, f);
        let t = sigma((n - 1) as nat, g);
        let x = f(n - 1);
        let y = g(n - 1);
        assert(a * (s + x) + b * (t + y) == (a * s + b * t) + (a * x + b * y)) by (nonlinear_arith);
    } else {
        assert(a * 0 + b * 0 == 0) by (nonlinear_arith);
    }
}

/// A leading zero term may be left out of a sum.
proof fn lemma_sigma_shift(n: nat, f: spec_fn(int) -> int, g: spec_fn(int) -> int)
    requires
        f(0) == 0,
        forall|i: int| 0 <= i < n ==> #[trigger] g(i) == f(i + 1),
    ensures
        sigma(n + 1, f) == sigma(n, g),
    decreases n,
{
    if n > 0 {
        lemma_sigma_shift((n - 1) as nat, f, g);
        assert(g(n - 1) == f(n as int));
    } else {
        assert(sigma(1, f) == sigma(0, f) + f(0));
    }
}

/// The first node gives a factor of the numerator as the last one does.
proof fn lemma_products_first(nodes: Seq<nat>, x: nat)
    requires
        nodes.len() > 0,
    ensures
        numerator(nodes, x) == numerator(nodes.drop_first(), x) * (if nodes[0] == x {
            1
        } else {
            0 - nodes[0]
        }),
        denominator(nodes, x) == denominator(nodes.drop_first(), x) * (if nodes[0] == x {
            1
        } else {
            x - nodes[0]
        }),
    decreases nodes.len(),
{
    let rest = nodes.drop_first();
    if nodes.len() == 1 {
        assert(nodes.drop_last() =~= Seq::<nat>::empty());
        assert(rest =~= Seq::<nat>::empty());
        assert(numerator(Seq::<nat>::empty(), x) == 1);
        assert(denominator(Seq::<nat>::empty(), x) == 1);
    } else {
        let before = nodes.drop_last();
        lemma_products_first(before, x);
        assert(before.drop_first() =~= rest.drop_last());
        assert(rest.last() == nodes.last());
        assert(before[0] == nodes[0]);
        let n = numerator(rest.drop_last(), x);
        let d = denominator(rest.drop_last(), x);
        let n0 = if nodes[0] == x {
            1int
        } else {
            0 - nodes[0]
        };
        let d0 = if nodes[0] == x {
            1int
        } else {
            x - nodes[0]
        };
        let n1 = if nodes.last() == x {
            1int
        } else {
            0 - nodes.last()
        };
        let d1 = if nodes.last() == x {
            1int
        } else {
            x - nodes.last()
        };
        assert((n * n0) * n1 == (n * n1) * n0) by (nonlinear_arith);
        assert((d * d0) * d1 == (d * d1) * d0) by (nonlinear_arith);
    }
}

/// What [`is_basis`] says of the weights, over integers that need not be reduced.
spec fn weighs(weights: Seq<int>, nodes: Seq<nat>) -> bool {
    &&& weights.len() == nodes.len()
    &&& forall|i: int|
        0 <= i < nodes.len() ==> {
            &&& field::is_unit(denominator(nodes, #[trigger] nodes[i]))
            &&& field::congruent(
                weights[i] * denominator(nodes, nodes[i]),
                numerator(nodes, nodes[i]),
            )
        }
}

/// The node `x` keeps the weight `kept` among the nodes `inner` when the node `left_out` goes.
spec fn keeps(weight: int, kept: int, inner: Seq<nat>, left_out: nat, x: nat) -> bool {
    &&& field::is_unit(denominator(inner, x))
    &&& field::congruent(kept * denominator(inner, x), numerator(inner, x))
    &&& field::congruent(weight * (x - left_out), kept * (0 - left_out))
}

/// The weight that a node keeps when the node `left_out` goes, where `inner` are the nodes
/// that stay.
proof fn lemma_weight_without(
    weight: int,
    nodes: Seq<nat>,
    inner: Seq<nat>,
    left_out: nat,
    x: nat,
) -> (kept: int)
    requires
        x != left_out,
        field::is_unit(denominator(nodes, x)),
        field::congruent(weight * denominator(nodes, x), numerator(nodes, x)),
        numerator(nodes, x) == numerator(inner, x) * (0 - left_out),
        denominator(nodes, x) == denominator(inner, x) * (x - left_out),
    ensures
        keeps(weight, kept, inner, left_out, x),
{
    let a = left_out as int;
    let d = denominator(inner, x);
    let n = numerator(inner, x);
    field::lemma_unit_factors(d, x - a);
    let u = choose|u: int| field::inverts(u, d);
    let kept = n * u;
    assert(kept * d == n * (u * d)) by (nonlinear_arith)
        requires
            kept == n * u,
    ;
    assert(n * 1 == n) by (nonlinear_arith);
    field::lemma_multiply(n, n, u * d, 1);
    assert(field::congruent(kept * d, n));
    // weight * (x - a) * d == weight * (d * (x - a)) ~ n * (-a) ~ (kept * d) * (-a)
    field::lemma_multiply(kept * d, n, 0 - a, 0 - a);
    assert(d * (weight * (x - a)) == weight * (d * (x - a))) by (nonlinear_arith);
    assert(d * (kept * (0 - a)) == (kept * d) * (0 - a)) by (nonlinear_arith);
    field::lemma_cancel(d, weight * (x - a), kept * (0 - a));
    kept
}

/// Weights for the nodes without the last one, and how they come out of the weights for all.
proof fn lemma_without_last(weights: Seq<int>, nodes: Seq<nat>) -> (kept: Seq<int>)
    requires
        nodes.len() > 0,
        nodes.no_duplicates(),
        weighs(weights, nodes),
    ensures
        weighs(kept, nodes.drop_last()),
        forall|i: int|
            0 <= i < nodes.len() - 1 ==> field::congruent(
                weights[i] * (nodes[i] - nodes.last()),
                #[trigger] kept[i] * (0 - nodes.last()),
            ),
{
    let inner = nodes.drop_last();
    let a = nodes.last();
    let kept = Seq::new(
        inner.len(),
        |i: int| choose|k: int| keeps(weights[i], k, inner, a, nodes[i]),
    );
    assert forall|i: int| 0 <= i < inner.len() implies keeps(
        weights[i],
        #[trigger] kept[i],
        inner,
        a,
        nodes[i],
    ) by {
        assert(nodes[i] != a);
        let k = lemma_weight_without(weights[i], nodes, inner, a, nodes[i]);
    }
    assert forall|i: int| 0 <= i < inner.len() implies {
        &&& field::is_unit(denominator(inner, #[trigger] inner[i]))
        &&& field::congruent(kept[i] * denominator(inner, inner[i]), numerator(inner, inner[i]))
    } by {
        assert(keeps(weights[i], kept[i], inner, a, nodes[i]));
        assert(inner[i] == nodes[i]);
    }
    assert forall|i: int| 0 <= i < nodes.len() - 1 implies field::congruent(
        weights[i] * (nodes[i] - nodes.last()),
        #[trigger] kept[i] * (0 - nodes.last()),
    ) by {
        assert(keeps(weights[i], kept[i], inner, a, nodes[i]));
    }
    kept
}

/// Weights for the nodes without the first one, and how they come out of the weights for all.
proof fn lemma_without_first(weights: Seq<int>, nodes: Seq<nat>) -> (kept: Seq<int>)
    requires
        nodes.len() > 0,
        nodes.no_duplicates(),
        weighs(weights, nodes),
    ensures
        weighs(kept, nodes.drop_first()),
        forall|i: int|
            0 < i < nodes.len() ==> field::congruent(
                #[trigger] weights[i] * (nodes[i] - nodes[0]),
                kept[i - 1] * (0 - nodes[0]),
            ),
{
    let inner = nodes.drop_first();
    let b = nodes[0];
    let later = weights.drop_first();
    let kept = Seq::new(
        inner.len(),
        |i: int| choose|k: int| keeps(later[i], k, inner, b, inner[i]),
    );
    assert forall|i: int| 0 <= i < inner.len() implies keeps(
        later[i],
        #[trigger] kept[i],
        inner,
        b,
        inner[i],
    ) by {
        assert(inner[i] == nodes[i + 1]);
        assert(nodes[i + 1] != b);
        lemma_products_first(nodes, inner[i]);
        let k = lemma_weight_without(later[i], nodes, inner, b, inner[i]);
    }
    assert forall|i: int| 0 <= i < inner.len() implies {
        &&& field::is_unit(denominator(inner, #[trigger] inner[i]))
        &&& field::congruent(kept[i] * denominator(inner, inner[i]), numerator(inner, inner[i]))
    } by {
        assert(keeps(later[i], kept[i], inner, b, inner[i]));
    }
    assert forall|i: int| 0 < i < nodes.len() implies field::congruent(
        #[trigger] weights[i] * (nodes[i] - nodes[0]),
        kept[i - 1] * (0 - nodes[0]),
    ) by {
        assert(inner[i - 1] == nodes[i]);
        assert(keeps(later[i - 1], kept[i - 1], inner, b, inner[i - 1]));
    }
    kept
}

/// The weights of distinct nodes sum to one.
proof fn lemma_weights_sum_to_one(weights: Seq<int>, nodes: Seq<nat>)
    requires
        nodes.len() > 0,
        nodes.no_duplicates(),
        weighs(weights, nodes),
    ensures
        field::congruent(sigma(nodes.len(), |i: int| weights[i]), 1),
    decreases nodes.len(),
{
    let n = nodes.len();
    let w = |i: int| weights[i];
    if n == 1 {
        assert(nodes.drop_last() =~= Seq::<nat>::empty());
        assert(numerator(Seq::<nat>::empty(), nodes[0]) == 1);
        assert(denominator(Seq::<nat>::empty(), nodes[0]) == 1);
        assert(numerator(nodes, nodes[0]) == 1);
        assert(denominator(nodes, nodes[0]) == 1);
        assert(weights[0] * 1 == weights[0]) by (nonlinear_arith);
        assert(sigma(1, w) == sigma(0, w) + w(0));
    } else {
        let a = nodes.last() as int;
        let b = nodes[0] as int;
        let fore = lemma_without_last(weights, nodes);
        let rear = lemma_without_first(weights, nodes);
        lemma_weights_sum_to_one(fore, nodes.drop_last());
        lemma_weights_sum_to_one(rear, nodes.drop_first());
        let f = |i: int|
            if i < n - 1 {
                fore[i]
            } else {
                0
            };
        let g = |i: int|
            if i > 0 {
                rear[i - 1]
            } else {
                0
            };
        let scaled = |i: int| (b - a) * weights[i];
        let mixed = |i: int| (0 - a) * f(i) + b * g(i);
        assert forall|i: int| 0 <= i < n implies field::congruent(
            #[trigger] scaled(i),
            mixed(i),
        ) by {
            let x = nodes[i] as int;
            if i < n - 1 {
                assert(field::congruent(weights[i] * (x - a), fore[i] * (0 - a)));
            } else {
                assert(weights[i] * (x - a) == 0) by (nonlinear_arith)
                    requires
                        x == a,
                ;
                assert(0 * (0 - a) == 0);
            }
            assert(field::congruent(weights[i] * (x - a), f(i) * (0 - a)));
            if i > 0 {
                assert(field::congruent(weights[i] * (x - b), rear[i - 1] * (0 - b)));
            } else {
                assert(weights[i] * (x - b) == 0) by (nonlinear_arith)
                    requires
                        x == b,
                ;
                assert(0 * (0 - b) == 0);
            }
            assert(field::congruent(weights[i] * (x - b), g(i) * (0 - b)));
            field::lemma_subtract(
                weights[i] * (x - a),
                f(i) * (0 - a),
                weights[i] * (x - b),
                g(i) * (0 - b),
            );
            let v = weights[i];
            let p = f(i);
            let q = g(i);
            assert(v * (x - a) - v * (x - b) == (b - a) * v) by (nonlinear_arith);
            assert(p * (0 - a) - q * (0 - b) == (0 - a) * p + b * q) by (nonlinear_arith);
        }
        lemma_sigma_congruent(n, scaled, mixed);
        lemma_sigma_linear(n, mixed, 0 - a, f, b, g);
        let zero = |i: int| 0int;
        assert forall|i: int| 0 <= i < n implies #[trigger] scaled(i) == (b - a) * w(i) + 0
            * zero(i) by {}
        lemma_sigma_linear(n, scaled, b - a, w, 0, zero);
        // The two shorter sums are one each.
        let fw = |i: int| fore[i];
        let rw = |i: int| rear[i];
        lemma_sigma_equal((n - 1) as nat, f, fw);
        assert(sigma(n, f) == sigma((n - 1) as nat, f) + f(n - 1));
        assert forall|i: int| 0 <= i < n - 1 implies #[trigger] rw(i) == g(i + 1) by {}
        lemma_sigma_shift((n - 1) as nat, g, rw);
        let sf = sigma(n, f);
        let sg = sigma(n, g);
        let sw = sigma(n, w);
        assert(field::congruent(sf, 1));
        assert(field::congruent(sg, 1));
        field::lemma_multiply(0 - a, 0 - a, sf, 1);
        field::lemma_multiply(b, b, sg, 1);
        field::lemma_add((0 - a) * sf, (0 - a) * 1, b * sg, b * 1);
        assert(field::congruent((b - a) * sw, (b - a) * 1));
        // b - a is a factor of the denominator at the first node.
        assert(nodes[0] != nodes.last());
        field::lemma_unit_factors(denominator(nodes.drop_last(), nodes[0]), b - a);
        field::lemma_cancel(b - a, sw, 1);
    }
}

/// The constant term of the polynomial with these coefficients.
pub open spec fn constant_term(coefficients: Seq<nat>) -> nat {
    if coefficients.len() == 0 {
        0
    } else {
        coefficients[0]
    }
}

proof fn lemma_recovers(weights: Seq<int>, nodes: Seq<nat>, coefficients: Seq<nat>)
    requires
        nodes.len() > 0,
        nodes.no_duplicates(),
        weighs(weights, nodes),
        coefficients.len() <= nodes.len(),
    ensures
        field::congruent(
            sigma(nodes.len(), |i: int| weights[i] * polynomial(coefficients, nodes[i] as int)),
            constant_term(coefficients) as int,
        ),
    decreases coefficients.len(), 0int,
{
    let n = nodes.len();
    let term = |i: int| weights[i] * polynomial(coefficients, nodes[i] as int);
    let zero = |i: int| 0int;
    if coefficients.len() == 0 {
        assert forall|i: int| 0 <= i < n implies #[trigger] term(i) == 0 * zero(i) + 0 * zero(
            i,
        ) by {
            assert(weights[i] * 0 == 0) by (nonlinear_arith);
        }
        lemma_sigma_linear(n, term, 0, zero, 0, zero);
    } else {
        let c = coefficients[0] as int;
        let tail = coefficients.drop_first();
        let w = |i: int| weights[i];
        let risen = |i: int| weights[i] * (nodes[i] * polynomial(tail, nodes[i] as int));
        lemma_weights_sum_to_one(weights, nodes);
        assert forall|i: int| 0 <= i < n implies #[trigger] term(i) == c * w(i) + 1 * risen(i) by {
            let v = weights[i];
            let xh = nodes[i] * polynomial(tail, nodes[i] as int);
            assert(v * (c + xh) == c * v + 1 * (v * xh)) by (nonlinear_arith);
        }
        lemma_sigma_linear(n, term, c, w, 1, risen);
        lemma_risen_vanishes(weights, nodes, tail);
        assert(field::congruent(sigma(n, risen), 0));
        let sw = sigma(n, w);
        field::lemma_multiply(c, c, sw, 1);
        field::lemma_add(c * sw, c * 1, sigma(n, risen), 0);
    }
}

/// A polynomial without constant term is recovered as zero.
proof fn lemma_risen_vanishes(weights: Seq<int>, nodes: Seq<nat>, tail: Seq<nat>)
    requires
        nodes.len() > 0,
        nodes.no_duplicates(),
        weighs(weights, nodes),
        tail.len() < nodes.len(),
    ensures
        field::congruent(
            sigma(
                nodes.len(),
                |i: int| weights[i] * (nodes[i] * polynomial(tail, nodes[i] as int)),
            ),
            0,
        ),
    decreases tail.len(), 1int,
{
    let n = nodes.len();
    let h = |i: int| polynomial(tail, nodes[i] as int);
    let risen = |i: int| weights[i] * (nodes[i] * polynomial(tail, nodes[i] as int));
    let zero = |i: int| 0int;
    if tail.len() == 0 {
        assert forall|i: int| 0 <= i < n implies #[trigger] risen(i) == 0 * zero(i) + 0 * zero(
            i,
        ) by {
            let v = weights[i];
            let x = nodes[i] as int;
            assert(v * (x * 0) == 0) by (nonlinear_arith);
        }
        lemma_sigma_linear(n, risen, 0, zero, 0, zero);
    } else {
        let a = nodes.last() as int;
        let inner = nodes.drop_last();
        let kept = lemma_without_last(weights, nodes);
        let f = |i: int|
            if i < n - 1 {
                kept[i] * h(i)
            } else {
                0
            };
        let g = |i: int| weights[i] * h(i);
        let mixed = |i: int| (0 - a) * f(i) + a * g(i);
        assert forall|i: int| 0 <= i < n implies field::congruent(#[trigger] risen(i), mixed(i)) by {
            let v = weights[i];
            let x = nodes[i] as int;
            let y = h(i);
            if i < n - 1 {
                let k = kept[i];
                assert(field::congruent(v * (x - a), k * (0 - a)));
                field::lemma_multiply(v * (x - a), k * (0 - a), y, y);
                field::lemma_add((v * (x - a)) * y, (k * (0 - a)) * y, a * (v * y), a * (v * y));
                assert((v * (x - a)) * y + a * (v * y) == v * (x * y)) by (nonlinear_arith);
                assert((k * (0 - a)) * y == (0 - a) * (k * y)) by (nonlinear_arith);
            } else {
                assert(v * (x * y) == (0 - a) * 0 + a * (v * y)) by (nonlinear_arith)
                    requires
                        x == a,
                ;
            }
        }
        lemma_sigma_congruent(n, risen, mixed);
        lemma_sigma_linear(n, mixed, 0 - a, f, a, g);
        lemma_recovers(weights, nodes, tail);
        lemma_recovers(kept, inner, tail);
        let t = constant_term(tail) as int;
        let terms = |i: int| weights[i] * polynomial(tail, nodes[i] as int);
        let inner_terms = |i: int| kept[i] * polynomial(tail, inner[i] as int);
        lemma_sigma_equal(n, g, terms);
        lemma_sigma_equal((n - 1) as nat, f, inner_terms);
        assert(sigma(n, f) == sigma((n - 1) as nat, f) + f(n - 1));
        let sf = sigma(n, f);
        let sg = sigma(n, g);
        field::lemma_multiply(0 - a, 0 - a, sf, t);
        field::lemma_multiply(a, a, sg, t);
        field::lemma_add((0 - a) * sf, (0 - a) * t, a * sg, a * t);
        assert((0 - a) * t + a * t == 0) by (nonlinear_arith);
    }
}

/// Lagrange interpolation at zero: weighed by the basis of distinct nodes, the values that a
/// polynomial takes at the nodes sum to its constant term, as long as it has no more
/// coefficients than there are nodes.
pub proof fn law_interpolation(nodes: Seq<nat>, coefficients: Seq<nat>)
    requires
        are_indexes(nodes),
        nodes.no_duplicates(),
        0 < nodes.len(),
        coefficients.len() <= nodes.len(),
    ensures
        field::congruent(
            dot(basis(nodes), Seq::new(nodes.len(), |i: int| evaluate(coefficients, nodes[i]))),
            constant_term(coefficients) as int,
        ),
{
    let n = nodes.len();
    let weights = basis(nodes);
    lemma_basis_exists(nodes);
    let shares = Seq::new(n, |i: int| evaluate(coefficients, nodes[i]));
    let lifted = Seq::new(n, |i: int| weights[i] as int);
    assert forall|i: int| 0 <= i < n implies {
        &&& field::is_unit(denominator(nodes, #[trigger] nodes[i]))
        &&& field::congruent(
            lifted[i] * denominator(nodes, nodes[i]),
            numerator(nodes, nodes[i]),
        )
    } by {
        assert(is_weight(weights[i], nodes, nodes[i]));
    }
    lemma_recovers(lifted, nodes, coefficients);
    let term = |i: int| weights[i] as int * shares[i] as int;
    let raw = |i: int| lifted[i] * polynomial(coefficients, nodes[i] as int);
    assert forall|i: int| 0 <= i < n implies field::congruent(#[trigger] term(i), raw(i)) by {
        let value = polynomial(coefficients, nodes[i] as int);
        field::lemma_reduce(value);
        field::lemma_multiply(weights[i] as int, lifted[i], shares[i] as int, value);
    }
    lemma_sigma_congruent(n, term, raw);
    assert(dot(weights, shares) == sigma(n, |i: int| weights[i] as int * shares[i] as int));
}

/// A polynomial without its last coefficient differs by the last term.
pub proof fn lemma_last_term(coefficients: Seq<nat>, x: int)
    requires
        coefficients.len() > 0,
    ensures
        polynomial(coefficients, x) == polynomial(
            coefficients.drop_last(),
            x,
        ) + coefficients.last() * vstd::arithmetic::power::pow(
            x,
            (coefficients.len() - 1) as nat,
        ),
    decreases coefficients.len(),
{
    let n = coefficients.len();
    let tail = coefficients.drop_first();
    let first = coefficients[0] as int;
    let last = coefficients.last() as int;
    reveal(vstd::arithmetic::power::pow);
    if n == 1 {
        assert(x * 0 == 0) by (nonlinear_arith);
        assert(tail =~= Seq::<nat>::empty());
        assert(coefficients.drop_last() =~= Seq::<nat>::empty());
        assert(vstd::arithmetic::power::pow(x, 0) == 1);
        assert(last * 1 == last) by (nonlinear_arith);
    } else {
        lemma_last_term(tail, x);
        let before = coefficients.drop_last();
        assert(before.drop_first() =~= tail.drop_last());
        assert(tail.last() == coefficients.last());
        assert(before[0] == coefficients[0]);
        let inner = polynomial(tail.drop_last(), x);
        let p = vstd::arithmetic::power::pow(x, (n - 2) as nat);
        assert(vstd::arithmetic::power::pow(x, (n - 1) as nat) == x * p);
        assert(first + x * (inner + last * p) == (first + x * inner) + last * (x * p))
            by (nonlinear_arith);
    }
}

/// A sum has no terms to begin with, and grows by the next one.
pub proof fn law_sigma(n: nat, f: spec_fn(int) -> int)
    ensures
        sigma(0, f) == 0,
        sigma(n + 1, f) == sigma(n, f) + f(n as int),
{
}

/// A sum of products grows by the product of the next entries, and what one list has more than
/// the other does not count.
pub proof fn law_dot(a: Seq<nat>, b: Seq<nat>, x: nat, y: nat, more: Seq<nat>)
    requires
        a.len() == b.len(),
    ensures
        dot(Seq::empty(), more) == 0,
        dot(a.push(x), b.push(y)) == dot(a, b) + x * y,
        dot(a + more, b) == dot(a, b),
        dot(a, b + more) == dot(a, b),
{
    let n = a.len();
    let f = |i: int| a[i] as int * b[i] as int;
    let longer = |i: int| a.push(x)[i] as int * b.push(y)[i] as int;
    lemma_sigma_equal(n, f, longer);
    assert(sigma((n + 1) as nat, longer) == sigma(n, longer) + longer(n as int));
    let left = |i: int| (a + more)[i] as int * b[i] as int;
    lemma_sigma_equal(n, f, left);
    let right = |i: int| a[i] as int * (b + more)[i] as int;
    lemma_sigma_equal(n, f, right);
}

/// A polynomial without coefficients is zero everywhere, and each further coefficient adds its
/// multiple of the power of the argument whose exponent is the number of those before it.
pub proof fn law_evaluate(coefficients: Seq<nat>, next: nat, x: nat)
    ensures
        evaluate(Seq::empty(), x) == 0,
        evaluate(coefficients, x) < field::order(),
        (evaluate(coefficients.push(next), x) - (evaluate(coefficients, x) + next
            * vstd::arithmetic::power::pow(x as int, coefficients.len()))) % (
        field::order() as int) == 0,
{
    field::lemma_order_large();
    field::lemma_reduce_small(0);
    let longer = coefficients.push(next);
    assert(longer.drop_last() =~= coefficients);
    lemma_last_term(longer, x as int);
    let before = polynomial(coefficients, x as int);
    let term = next * vstd::arithmetic::power::pow(x as int, coefficients.len());
    field::lemma_reduce(before);
    field::lemma_reduce(before + term);
    field::lemma_add(evaluate(coefficients, x) as int, before, term, term);
    field::law_congruent(evaluate(longer, x) as int, evaluate(coefficients, x) + term);
}

/// The constant term is the value at zero.
pub proof fn law_constant_term(coefficients: Seq<nat>)
    ensures
        coefficients.len() == 0 ==> constant_term(coefficients) == 0,
        coefficients.len() > 0 ==> constant_term(coefficients) == coefficients[0],
        (evaluate(coefficients, 0) - constant_term(coefficients)) % (field::order() as int) == 0,
{
    field::lemma_reduce(polynomial(coefficients, 0));
    field::law_congruent(evaluate(coefficients, 0) as int, constant_term(coefficients) as int);
}

/// The products of the weights grow by a factor with each node that is not the one in question.
pub proof fn law_products(nodes: Seq<nat>, next: nat, x: nat)
    ensures
        numerator(Seq::empty(), x) == 1,
        denominator(Seq::empty(), x) == 1,
        next == x ==> numerator(nodes.push(next), x) == numerator(nodes, x),
        next == x ==> denominator(nodes.push(next), x) == denominator(nodes, x),
        next != x ==> numerator(nodes.push(next), x) == numerator(nodes, x) * (0 - next),
        next != x ==> denominator(nodes.push(next), x) == denominator(nodes, x) * (x - next),
{
    assert(nodes.push(next).drop_last() =~= nodes);
    let n = numerator(nodes, x);
    let d = denominator(nodes, x);
    assert(n * 1 == n && d * 1 == d) by (nonlinear_arith);
}

/// The weight of a node is the one scalar that, times the denominator, is the numerator; and the
/// weights of the nodes stand in their order.
pub proof fn law_weights(nodes: Seq<nat>, i: int, other: nat)
    requires
        are_indexes(nodes),
        0 <= i < nodes.len(),
    ensures
        basis(nodes).len() == nodes.len(),
        basis(nodes)[i] < field::order(),
        (basis(nodes)[i] * denominator(nodes, nodes[i]) - numerator(nodes, nodes[i])) % (
        field::order() as int) == 0,
        other < field::order() && (other * denominator(nodes, nodes[i]) - numerator(
            nodes,
            nodes[i],
        )) % (field::order() as int) == 0 ==> other == basis(nodes)[i],
{
    lemma_basis_exists(nodes);
    let w = basis(nodes)[i];
    assert(is_weight(w, nodes, nodes[i]));
    let d = denominator(nodes, nodes[i]);
    let n = numerator(nodes, nodes[i]);
    field::law_congruent(w * d, n);
    field::law_congruent(other * d, n);
    if other < field::order() && field::congruent(other * d, n) {
        lemma_weight_unique(other, w, nodes, nodes[i]);
    }
}

/// The first nodes are the numbers from one on.
pub proof fn law_first_nodes(n: nat, i: int)
    requires
        0 <= i < n,
    ensures
        first_nodes(n).len() == n,
        first_nodes(n)[i] == i + 1,
{
}

/// The weight of any machine integer among the nodes is the one scalar that, times the
/// denominator, is the numerator.
pub proof fn law_weight(nodes: Seq<nat>, x: nat, w: nat)
    requires
        are_indexes(nodes),
        x <= u64::MAX,
    ensures
        w == weight(nodes, x) <==> w < field::order() && (w * denominator(nodes, x) - numerator(
            nodes,
            x,
        )) % (field::order() as int) == 0,
{
    lemma_weight_exists(nodes, x);
    lemma_denominator(nodes, x);
    let d = denominator(nodes, x);
    let n = numerator(nodes, x);
    field::law_congruent(w * d, n);
    if is_weight(w, nodes, x) {
        lemma_weight_unique(w, weight(nodes, x), nodes, x);
    }
}

} // verus!
