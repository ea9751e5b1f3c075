//! Arithmetic modulo the order of the BLS12-381 groups.
//!
//! Every scalar is modelled by its value, a natural number, and the laws of the library come
//! down to congruences between integers modulo [`order`].
use vstd::prelude::*;

verus! {

/// The number of elements of each of the groups, and of the field of the scalars.
#[verifier::opaque]
pub open spec fn order() -> nat {
    0x73eda753299d7d483339d80809a1d80553bda402fffe5bfeffffffff00000001nat
}

/// The representative of `x` between zero and the order.
pub open spec fn reduce(x: int) -> nat {
    (x % (order() as int)) as nat
}

/// The integers `a` and `b` differ by a multiple of the order.
pub open spec fn congruent(a: int, b: int) -> bool {
    a % (order() as int) == b % (order() as int)
}

/// The integer `a` has a multiplicative inverse modulo the order.
pub open spec fn is_unit(a: int) -> bool {
    exists|u: int| inverts(u, a)
}

/// The product of `u` and `a` is one modulo the order.
pub open spec fn inverts(u: int, a: int) -> bool {
    congruent(u * a, 1)
}

/// The number whose base-256 digits are `bytes`, the least significant first.
pub open spec fn little_endian(bytes: Seq<u8>) -> nat
    decreases bytes.len(),
{
    if bytes.len() == 0 {
        0
    } else {
        bytes[0] as nat + 256 * little_endian(bytes.drop_first())
    }
}

/// The order exceeds every difference of two machine integers.
pub proof fn lemma_order_large()
    ensures
        order() > 0x1_0000_0000_0000_0000nat,
{
    reveal(order);
}

pub proof fn lemma_reduce(x: int)
    ensures
        congruent(reduce(x) as int, x),
        reduce(x) < order(),
{
    lemma_order_large();
    vstd::arithmetic::div_mod::lemma_mod_bound(x, order() as int);
    vstd::arithmetic::div_mod::lemma_mod_twice(x, order() as int);
}

pub proof fn lemma_reduce_small(x: nat)
    requires
        x < order(),
    ensures
        reduce(x as int) == x,
{
    vstd::arithmetic::div_mod::lemma_small_mod(x, order());
}

pub proof fn lemma_reduce_congruent(a: int, b: int)
    requires
        congruent(a, b),
    ensures
        reduce(a) == reduce(b),
{
}

pub proof fn lemma_add(a: int, b: int, c: int, d: int)
    requires
        congruent(a, b),
        congruent(c, d),
    ensures
        congruent(a + c, b + d),
{
    lemma_order_large();
    vstd::arithmetic::div_mod::lemma_add_mod_noop(a, c, order() as int);
    vstd::arithmetic::div_mod::lemma_add_mod_noop(b, d, order() as int);
}

pub proof fn lemma_subtract(a: int, b: int, c: int, d: int)
    requires
        congruent(a, b),
        congruent(c, d),
    ensures
        congruent(a - c, b - d),
{
    lemma_order_large();
    vstd::arithmetic::div_mod::lemma_sub_mod_noop(a, c, order() as int);
    vstd::arithmetic::div_mod::lemma_sub_mod_noop(b, d, order() as int);
}

pub proof fn lemma_multiply(a: int, b: int, c: int, d: int)
    requires
        congruent(a, b),
        congruent(c, d),
    ensures
        congruent(a * c, b * d),
{
    lemma_order_large();
    vstd::arithmetic::div_mod::lemma_mul_mod_noop_general(a, c, order() as int);
    vstd::arithmetic::div_mod::lemma_mul_mod_noop_general(b, d, order() as int);
}

/// A unit may be cancelled on both sides of a congruence.
pub proof fn lemma_cancel(d: int, a: int, b: int)
    requires
        is_unit(d),
        congruent(d * a, d * b),
    ensures
        congruent(a, b),
{
    let u = choose|u: int| inverts(u, d);
    lemma_multiply(u, u, d * a, d * b);
    lemma_multiply(u * d, 1, a, a);
    lemma_multiply(u * d, 1, b, b);
    assert(u * (d * a) == (u * d) * a) by (nonlinear_arith);
    assert(u * (d * b) == (u * d) * b) by (nonlinear_arith);
}

/// Both factors of a unit are units.
pub proof fn lemma_unit_factors(a: int, b: int)
    requires
        is_unit(a * b),
    ensures
        is_unit(a),
        is_unit(b),
{
    let product = a * b;
    let u = choose|u: int| inverts(u, product);
    assert(u * (a * b) == (u * b) * a) by (nonlinear_arith);
    assert(u * (a * b) == (u * a) * b) by (nonlinear_arith);
    assert(inverts(u * b, a));
    assert(inverts(u * a, b));
}

/// The product of units is a unit.
pub proof fn lemma_unit_product(a: int, b: int)
    requires
        is_unit(a),
        is_unit(b),
    ensures
        is_unit(a * b),
{
    let u = choose|u: int| inverts(u, a);
    let v = choose|v: int| inverts(v, b);
    lemma_multiply(u * a, 1, v * b, 1);
    assert((u * a) * (v * b) == (u * v) * (a * b)) by (nonlinear_arith);
    let product = a * b;
    assert(inverts(u * v, product));
}

/// A unit is not zero.
pub proof fn lemma_unit_nonzero(a: int)
    requires
        is_unit(a),
    ensures
        reduce(a) != 0,
{
    let u = choose|u: int| inverts(u, a);
    lemma_order_large();
    lemma_reduce(a);
    lemma_multiply(u, u, reduce(a) as int, a);
    assert(u * 0 == 0);
    lemma_reduce_small(0);
    lemma_reduce_small(1);
}

/// The representative of a number is below the order and differs from the number by a multiple
/// of the order; no other number does both.
pub proof fn law_reduce(x: int, y: nat)
    ensures
        reduce(x) < order(),
        (x - reduce(x)) % (order() as int) == 0,
        y < order() && (x - y) % (order() as int) == 0 ==> y == reduce(x),
{
    lemma_order_large();
    lemma_reduce(x);
    lemma_subtract(x, x, reduce(x) as int, x);
    if y < order() && (x - y) % (order() as int) == 0 {
        lemma_reduce_small(0);
        lemma_add(x - y, 0, y as int, y as int);
        lemma_reduce_small(y);
    }
}

/// Two numbers are congruent where they differ by a multiple of the order.
pub proof fn law_congruent(a: int, b: int)
    ensures
        congruent(a, b) <==> (a - b) % (order() as int) == 0,
{
    lemma_order_large();
    lemma_reduce_small(0);
    if congruent(a, b) {
        lemma_subtract(a, b, b, b);
    }
    if (a - b) % (order() as int) == 0 {
        lemma_add(a - b, 0, b, b);
    }
}

/// Every byte can be read back from the number, and the number is no larger than the bytes allow.
pub proof fn law_little_endian_digits(bytes: Seq<u8>, i: int)
    requires
        0 <= i < bytes.len(),
    ensures
        bytes[i] == (little_endian(bytes) as int / vstd::arithmetic::power::pow(256, i as nat))
            % 256,
    decreases bytes.len(),
{
    let rest = bytes.drop_first();
    let low = bytes[0] as int;
    let high = little_endian(rest) as int;
    if i == 0 {
        vstd::arithmetic::power::lemma_pow0(256);
        assert((low + 256 * high) % 256 == low);
    } else {
        law_little_endian_digits(rest, i - 1);
        assert(rest[i - 1] == bytes[i]);
        let p = vstd::arithmetic::power::pow(256, (i - 1) as nat);
        vstd::arithmetic::power::lemma_pow_positive(256, (i - 1) as nat);
        vstd::arithmetic::power::lemma_pow_adds(256, 1, (i - 1) as nat);
        vstd::arithmetic::power::lemma_pow1(256);
        assert(vstd::arithmetic::power::pow(256, i as nat) == 256 * p);
        vstd::arithmetic::div_mod::lemma_div_denominator(low + 256 * high, 256, p);
        assert((low + 256 * high) / 256 == high);
    }
}

/// Every number that is small enough has its bytes, of which [`little_endian`] makes it again.
pub proof fn law_little_endian_onto(n: nat, x: nat) -> (bytes: Seq<u8>)
    requires
        x < vstd::arithmetic::power::pow(256, n),
    ensures
        bytes.len() == n,
        little_endian(bytes) == x,
    decreases n,
{
    if n == 0 {
        vstd::arithmetic::power::lemma_pow0(256);
        Seq::empty()
    } else {
        vstd::arithmetic::power::lemma_pow_adds(256, 1, (n - 1) as nat);
        vstd::arithmetic::power::lemma_pow1(256);
        let rest = law_little_endian_onto((n - 1) as nat, x / 256);
        let bytes = seq![(x % 256) as u8] + rest;
        assert(bytes.drop_first() =~= rest);
        bytes
    }
}

/// Bytes of the same number that stand for the same number are the same.
pub proof fn law_little_endian_injective(a: Seq<u8>, b: Seq<u8>)
    requires
        a.len() == b.len(),
        little_endian(a) == little_endian(b),
    ensures
        a == b,
{
    assert forall|i: int| 0 <= i < a.len() implies a[i] == #[trigger] b[i] by {
        law_little_endian_digits(a, i);
        law_little_endian_digits(b, i);
    }
    assert(a =~= b);
}

} // verus!
