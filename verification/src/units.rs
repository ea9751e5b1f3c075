//! The order of the groups is prime, and the numbers that it does not divide have inverses.
//!
//! The proof goes by an element of large multiplicative order. Its powers are distinct modulo
//! every divisor of the order of the groups but one, so that no such divisor is small, and the
//! order is no product of two of them.
use vstd::prelude::*;

use crate::certificate;
use crate::field;

verus! {

pub open spec fn product(a: int, b: int) -> int {
    a * b
}

/// The integer `n` is a multiple of `d`.
pub open spec fn divides(d: int, n: int) -> bool {
    exists|k: int| #[trigger] product(d, k) == n
}

pub proof fn lemma_divides(d: int, k: int)
    ensures
        divides(d, d * k),
{
    assert(product(d, k) == d * k);
}

pub proof fn lemma_divides_sum(d: int, a: int, b: int)
    requires
        divides(d, a),
        divides(d, b),
    ensures
        divides(d, a + b),
        divides(d, a - b),
{
    let i = choose|i: int| #[trigger] product(d, i) == a;
    let j = choose|j: int| #[trigger] product(d, j) == b;
    assert(d * i + d * j == d * (i + j) && d * i - d * j == d * (i - j)) by (nonlinear_arith);
    assert(product(d, i + j) == a + b);
    assert(product(d, i - j) == a - b);
}

pub proof fn lemma_divides_product(d: int, a: int, b: int)
    requires
        divides(d, a),
    ensures
        divides(d, a * b),
{
    let i = choose|i: int| #[trigger] product(d, i) == a;
    assert((d * i) * b == d * (i * b)) by (nonlinear_arith);
    assert(product(d, i * b) == a * b);
}

pub proof fn lemma_divides_transitive(c: int, d: int, n: int)
    requires
        divides(c, d),
        divides(d, n),
    ensures
        divides(c, n),
{
    let k = choose|k: int| #[trigger] product(d, k) == n;
    lemma_divides_product(c, d, k);
}

/// A divisor of a positive number is no larger.
proof fn lemma_divisor_bounded(d: int, n: int)
    requires
        divides(d, n),
        d > 0,
        n > 0,
    ensures
        d <= n,
{
    let k = choose|k: int| #[trigger] product(d, k) == n;
    assert(d <= n) by (nonlinear_arith)
        requires
            d * k == n,
            d > 0,
            n > 0,
    ;
}

/// What Bezout's identity says of two numbers.
pub open spec fn bezout(a: nat, b: nat, g: nat, u: int, v: int) -> bool {
    &&& g > 0
    &&& u * a + v * b == g
    &&& divides(g as int, a as int)
    &&& divides(g as int, b as int)
}

/// Two numbers have a common divisor that is a combination of them.
pub proof fn lemma_bezout(a: nat, b: nat) -> (r: (nat, int, int))
    requires
        a > 0,
    ensures
        bezout(a, b, r.0, r.1, r.2),
    decreases b,
{
    if b == 0 {
        lemma_divides(a as int, 1);
        lemma_divides(a as int, 0);
        (a, 1, 0)
    } else {
        let q = (a / b) as int;
        let rest = a % b;
        let (ai, bi, ri) = (a as int, b as int, rest as int);
        vstd::arithmetic::div_mod::lemma_fundamental_div_mod(ai, bi);
        let (g, u, v) = lemma_bezout(b, rest);
        lemma_divides_product(g as int, bi, q);
        lemma_divides_sum(g as int, bi * q, ri);
        assert(u * bi + v * ri == v * ai + (u - q * v) * bi) by (nonlinear_arith)
            requires
                ai == bi * q + ri,
        ;
        (g, v, u - q * v)
    }
}

/// The power of `a` with the exponent `e` is one modulo `g`.
pub open spec fn is_unity(a: int, g: int, e: nat) -> bool {
    divides(g, vstd::arithmetic::power::pow(a, e) - 1)
}

proof fn lemma_unity_multiple(a: int, g: int, e: nat, k: nat)
    requires
        is_unity(a, g, e),
    ensures
        is_unity(a, g, e * k),
    decreases k,
{
    if k == 0 {
        assert(e * 0 == 0) by (nonlinear_arith);
        vstd::arithmetic::power::lemma_pow0(a);
        lemma_divides(g, 0);
    } else {
        let before = (k - 1) as nat;
        lemma_unity_multiple(a, g, e, before);
        assert(e * k == e * before + e) by (nonlinear_arith)
            requires
                k == before + 1,
        ;
        vstd::arithmetic::power::lemma_pow_adds(a, e * before, e);
        let p = vstd::arithmetic::power::pow(a, e * before);
        let r = vstd::arithmetic::power::pow(a, e);
        lemma_divides_product(g, p - 1, r);
        lemma_divides_sum(g, (p - 1) * r, r - 1);
        assert((p - 1) * r + (r - 1) == p * r - 1) by (nonlinear_arith);
    }
}

proof fn lemma_unity_cancel(a: int, g: int, m: nat, r: nat)
    requires
        is_unity(a, g, m),
        is_unity(a, g, m + r),
    ensures
        is_unity(a, g, r),
{
    vstd::arithmetic::power::lemma_pow_adds(a, m, r);
    let p = vstd::arithmetic::power::pow(a, m);
    let s = vstd::arithmetic::power::pow(a, r);
    lemma_divides_product(g, p - 1, s);
    lemma_divides_sum(g, p * s - 1, (p - 1) * s);
    assert((p * s - 1) - (p - 1) * s == s - 1) by (nonlinear_arith);
}

/// The least exponent from one on for which the power is one.
proof fn lemma_least_exponent(a: int, g: int, d: nat) -> (e: nat)
    requires
        d > 0,
        is_unity(a, g, d),
    ensures
        0 < e <= d,
        is_unity(a, g, e),
        forall|f: nat| 0 < f < e ==> !(#[trigger] is_unity(a, g, f)),
    decreases d,
{
    if exists|f: nat| 0 < f < d && #[trigger] is_unity(a, g, f) {
        let f = choose|f: nat| 0 < f < d && #[trigger] is_unity(a, g, f);
        lemma_least_exponent(a, g, f)
    } else {
        d
    }
}

/// The least exponent divides every other.
proof fn lemma_least_divides(a: int, g: int, e: nat, n: nat) -> (k: nat)
    requires
        0 < e,
        is_unity(a, g, e),
        forall|f: nat| 0 < f < e ==> !(#[trigger] is_unity(a, g, f)),
        is_unity(a, g, n),
    ensures
        n == e * k,
{
    let k = n / e;
    let r = n % e;
    vstd::arithmetic::div_mod::lemma_fundamental_div_mod(n as int, e as int);
    lemma_unity_multiple(a, g, e, k);
    lemma_unity_cancel(a, g, e * k, r);
    k
}

/// Where there are more exponents than residues, two powers agree, and a smaller power is one.
proof fn lemma_powers_repeat(a: int, g: nat, n: nat) -> (d: nat)
    requires
        0 < g < n,
        is_unity(a, g as int, n),
    ensures
        0 < d < n,
        is_unity(a, g as int, d),
{
    let residues = Seq::new(
        n,
        |i: int| vstd::arithmetic::power::pow(a, i as nat) % (g as int),
    );
    if residues.no_duplicates() {
        residues.unique_seq_to_set();
        vstd::set_lib::lemma_int_range(0, g as int);
        assert(residues.to_set().subset_of(vstd::set_lib::set_int_range(0, g as int))) by {
            assert forall|x: int| residues.to_set().contains(x) implies vstd::set_lib::set_int_range(
                0,
                g as int,
            ).contains(x) by {
                let i = choose|i: int| 0 <= i < residues.len() && residues[i] == x;
                vstd::arithmetic::div_mod::lemma_mod_bound(
                    vstd::arithmetic::power::pow(a, i as nat),
                    g as int,
                );
            }
        }
        vstd::set_lib::lemma_len_subset(
            residues.to_set(),
            vstd::set_lib::set_int_range(0, g as int),
        );
        0
    } else {
        let (x, y) = choose|x: int, y: int|
            0 <= x < residues.len() && 0 <= y < residues.len() && x != y && residues[x]
                == residues[y];
        let (i, j) = if x < y {
            (x as nat, y as nat)
        } else {
            (y as nat, x as nat)
        };
        let d = (j - i) as nat;
        let m = g as int;
        let p = vstd::arithmetic::power::pow(a, i);
        let r = vstd::arithmetic::power::pow(a, j);
        let s = vstd::arithmetic::power::pow(a, d);
        let t = vstd::arithmetic::power::pow(a, (n - i) as nat);
        let w = vstd::arithmetic::power::pow(a, n);
        vstd::arithmetic::power::lemma_pow_adds(a, i, d);
        vstd::arithmetic::power::lemma_pow_adds(a, (n - i) as nat, i);
        vstd::arithmetic::div_mod::lemma_fundamental_div_mod(p, m);
        vstd::arithmetic::div_mod::lemma_fundamental_div_mod(r, m);
        assert(m * (r / m) - m * (p / m) == m * (r / m - p / m)) by (nonlinear_arith);
        lemma_divides(m, r / m - p / m);
        assert(divides(m, r - p));
        lemma_divides_product(m, r - p, t);
        assert((p * s - p) * t == w * (s - 1)) by (nonlinear_arith)
            requires
                w == t * p,
        ;
        lemma_divides_product(m, w - 1, s - 1);
        lemma_divides_sum(m, w * (s - 1), (w - 1) * (s - 1));
        assert(w * (s - 1) - (w - 1) * (s - 1) == s - 1) by (nonlinear_arith);
        d
    }
}

/// A number without a common divisor with `p` divides what is left of a multiple of `p`.
proof fn lemma_strip(k: int, p: int, m: int, u: int, v: int)
    requires
        u * k + v * p == 1,
        divides(k, p * m),
    ensures
        divides(k, m),
{
    lemma_divides_product(k, p * m, v);
    lemma_divides(k, u * m);
    lemma_divides_sum(k, k * (u * m), (p * m) * v);
    assert(k * (u * m) + (p * m) * v == m) by (nonlinear_arith)
        requires
            u * k + v * p == 1,
    ;
}

/// The power of two with this exponent.
pub open spec fn power_of_two(n: nat) -> int
    decreases n,
{
    if n == 0 {
        1
    } else {
        2 * power_of_two((n - 1) as nat)
    }
}

/// An odd number divides what is left of a multiple of a power of two.
proof fn lemma_strip_twos(k: int, h: int, n: nat, m: int)
    requires
        k == 2 * h + 1,
        divides(k, power_of_two(n) * m),
    ensures
        divides(k, m),
    decreases n,
{
    if n == 0 {
        assert(1 * m == m);
    } else {
        let half = power_of_two((n - 1) as nat);
        assert((2 * half) * m == 2 * (half * m)) by (nonlinear_arith);
        lemma_strip(k, 2, half * m, 1, -h);
        lemma_strip_twos(k, h, (n - 1) as nat, m);
    }
}

/// The first of the odd primes whose squares divide the large order.
pub open spec fn first_prime() -> nat {
    906349
}

/// The second of the odd primes whose squares divide the large order.
pub open spec fn second_prime() -> nat {
    254760293
}

/// The multiplicative order of the element of large order: two to the thirty-second, times the
/// squares of the two odd primes. Its square exceeds the order of the groups.
pub open spec fn large_order() -> nat {
    0xac45a4010001a4020000000100000000nat
}

/// The number has no divisors but one and itself.
pub open spec fn is_prime(p: nat) -> bool {
    &&& p > 1
    &&& forall|d: nat| d > 0 && #[trigger] divides(d as int, p as int) ==> d == 1 || d == p
}

proof fn lemma_first_prime()
    ensures
        is_prime(first_prime()),
{
    assert forall|d: nat| d > 0 && #[trigger] divides(d as int, first_prime() as int) implies d == 1
        || d == first_prime() by {
        let k = choose|k: int| #[trigger] product(d as int, k) == first_prime();
        lemma_divisor_bounded(d as int, first_prime() as int);
        let small = d as u32;
        assert(2 <= small < 906349 ==> 906349u32 % small != 0) by (bit_vector);
        lemma_exact_division(d as int, k, first_prime() as int);
    }
}

proof fn lemma_second_prime()
    ensures
        is_prime(second_prime()),
{
    assert forall|d: nat| d > 0 && #[trigger] divides(d as int, second_prime() as int) implies d
        == 1 || d == second_prime() by {
        let k = choose|k: int| #[trigger] product(d as int, k) == second_prime();
        lemma_divisor_bounded(d as int, second_prime() as int);
        assert(k > 0) by (nonlinear_arith)
            requires
                d * k == second_prime(),
                second_prime() > 0,
                d > 0,
        ;
        assert(k * d == d * k) by (nonlinear_arith);
        lemma_exact_division(d as int, k, second_prime() as int);
        lemma_exact_division(k, d as int, second_prime() as int);
        // One of the two factors is below the square root.
        assert(d <= 15961 || k <= 15961) by (nonlinear_arith)
            requires
                d * k == 254760293,
        ;
        lemma_divides(k, d as int);
        lemma_divisor_bounded(k, second_prime() as int);
        let x = d as u32;
        let y = k as u32;
        assert(2 <= x <= 15961 ==> 254760293u32 % x != 0) by (bit_vector);
        assert(2 <= y <= 15961 ==> 254760293u32 % y != 0) by (bit_vector);
        if d > 15961 {
            assert(k == 1);
            assert(d * 1 == d);
        }
    }
}

proof fn lemma_exact_division(d: int, k: int, n: int)
    requires
        d > 0,
        d * k == n,
    ensures
        n % d == 0,
{
    assert(k * d == n) by (nonlinear_arith)
        requires
            d * k == n,
    ;
    vstd::arithmetic::div_mod::lemma_mod_multiples_basic(k, d);
}

/// A number that is no multiple of a prime divides what is left of a multiple of its square.
proof fn lemma_strip_prime(k: nat, p: nat, m: int)
    requires
        k > 0,
        is_prime(p),
        !divides(p as int, k as int),
        divides(k as int, p * (p * m)),
    ensures
        divides(k as int, m),
{
    let (g, u, v) = lemma_bezout(k, p);
    assert(divides(g as int, p as int));
    lemma_strip(k as int, p as int, p * m, u, v);
    lemma_strip(k as int, p as int, m, u, v);
}

/// A divisor of the large order is one, or a multiple of two or of one of the odd primes.
proof fn lemma_divisors_of_large_order(k: nat)
    requires
        k > 0,
        divides(k as int, large_order() as int),
        !divides(2, k as int),
        !divides(first_prime() as int, k as int),
        !divides(second_prime() as int, k as int),
    ensures
        k == 1,
{
    let ki = k as int;
    let p = first_prime() as int;
    let r = second_prime() as int;
    let h = ki / 2;
    if ki % 2 == 0 {
        lemma_divides(2, h);
    }
    reveal_with_fuel(power_of_two, 33);
    assert(power_of_two(32) == 0x1_0000_0000int);
    let odd = p * (p * (r * (r * 1)));
    assert(large_order() == power_of_two(32) * odd) by (nonlinear_arith)
        requires
            power_of_two(32) == 0x1_0000_0000int,
            odd == p * (p * (r * (r * 1))),
            p == 906349,
            r == 254760293,
            large_order() == 0xac45a4010001a4020000000100000000nat,
    ;
    lemma_strip_twos(ki, h, 32, odd);
    lemma_first_prime();
    lemma_second_prime();
    lemma_strip_prime(k, first_prime(), r * (r * 1));
    lemma_strip_prime(k, second_prime(), 1);
    lemma_divisor_bounded(ki, 1);
}

/// A divisor `g` of the order modulo which a power with an exponent that lacks a factor of the
/// large order is one, though the power less one has an inverse modulo the order.
proof fn lemma_part(g: nat, y: int, z: int, c: int)
    requires
        g > 0,
        divides(g as int, field::order() as int),
        divides(field::order() as int, y - z),
        divides(field::order() as int, (z - 1) * c - 1),
        divides(g as int, y - 1),
    ensures
        g == 1,
{
    let gi = g as int;
    let q = field::order() as int;
    lemma_divides_transitive(gi, q, y - z);
    lemma_divides_sum(gi, y - 1, y - z);
    lemma_divides_product(gi, z - 1, c);
    lemma_divides_transitive(gi, q, (z - 1) * c - 1);
    lemma_divides_sum(gi, (z - 1) * c, (z - 1) * c - 1);
    lemma_divisor_bounded(gi, 1);
}

/// Where the least exponent `e` leaves a multiple of `p` of the exponent `n`, the power with the
/// exponent `n / p` is one.
proof fn lemma_unity_part(a: int, g: int, e: nat, k: nat, n: nat, p: nat)
    requires
        is_unity(a, g, e),
        n == e * k,
        k > 0,
        p > 0,
        divides(p as int, k as int),
    ensures
        is_unity(a, g, (n / p) as nat),
{
    let m = choose|m: int| #[trigger] product(p as int, m) == k;
    assert(m > 0) by (nonlinear_arith)
        requires
            p * m == k,
            k > 0,
            p > 0,
    ;
    let (ei, pi, ni) = (e as int, p as int, n as int);
    assert(ni == (ei * m) * pi + 0) by (nonlinear_arith)
        requires
            ni == ei * (pi * m),
    ;
    vstd::arithmetic::div_mod::lemma_fundamental_div_mod_converse(ni, pi, ei * m, 0);
    lemma_unity_multiple(a, g, e, m as nat);
}

/// A divisor of the order of the groups other than one is at least as large as the large order.
proof fn lemma_no_small_divisor(g: nat)
    requires
        g > 1,
        divides(g as int, field::order() as int),
    ensures
        g >= large_order(),
{
    if g < large_order() {
        let a = certificate::element() as int;
        let q = field::order() as int;
        let gi = g as int;
        let n = large_order();
        certificate::lemma_powers();
        lemma_divides_transitive(gi, q, vstd::arithmetic::power::pow(a, n) - 1);
        let d = lemma_powers_repeat(a, g, n);
        let e = lemma_least_exponent(a, gi, d);
        let k = lemma_least_divides(a, gi, e, n);
        assert(k > 1) by (nonlinear_arith)
            requires
                n == e * k,
                e < n,
                n > 0,
        ;
        lemma_divides(k as int, e as int);
        assert(k * e == e * k) by (nonlinear_arith);
        if divides(2, k as int) {
            // The power is minus one, so that the divisor divides two, and the order is odd.
            let x = vstd::arithmetic::power::pow(a, (n / 2) as nat);
            lemma_unity_part(a, gi, e, k, n, 2);
            lemma_divides_transitive(gi, q, x + 1);
            lemma_divides_sum(gi, x + 1, x - 1);
            lemma_divides_product(gi, 2, (q - 1) / 2);
            reveal(field::order);
            lemma_divides_sum(gi, q, 2 * ((q - 1) / 2));
            lemma_divisor_bounded(gi, 1);
        } else if divides(first_prime() as int, k as int) {
            lemma_unity_part(a, gi, e, k, n, first_prime());
            lemma_part(
                g,
                vstd::arithmetic::power::pow(a, (n / first_prime()) as nat),
                certificate::first_power() as int,
                certificate::first_cofactor() as int,
            );
        } else if divides(second_prime() as int, k as int) {
            lemma_unity_part(a, gi, e, k, n, second_prime());
            lemma_part(
                g,
                vstd::arithmetic::power::pow(a, (n / second_prime()) as nat),
                certificate::second_power() as int,
                certificate::second_cofactor() as int,
            );
        } else {
            lemma_divisors_of_large_order(k);
        }
    }
}

/// The order of the groups is prime.
pub proof fn lemma_order_prime()
    ensures
        is_prime(field::order()),
{
    let q = field::order() as int;
    field::lemma_order_large();
    assert forall|d: nat| d > 0 && #[trigger] divides(d as int, q) implies d == 1 || d == q by {
        if d != 1 && d != q {
            let k = choose|k: int| #[trigger] product(d as int, k) == q;
            assert(k > 1) by (nonlinear_arith)
                requires
                    d * k == q,
                    q > 1,
                    d > 1,
                    d != q,
            ;
            lemma_divides(k, d as int);
            assert(k * d == d * k) by (nonlinear_arith);
            lemma_no_small_divisor(d);
            lemma_no_small_divisor(k as nat);
            let n = large_order() as int;
            assert(d * k >= n * n) by (nonlinear_arith)
                requires
                    d >= n,
                    k >= n,
                    n > 0,
            ;
            reveal(field::order);
            assert(0xac45a4010001a4020000000100000000int * 0xac45a4010001a4020000000100000000int > q);
        }
    }
}

/// A number that is no multiple of the order has an inverse modulo the order.
pub proof fn lemma_unit(x: int)
    requires
        !field::congruent(x, 0),
    ensures
        field::is_unit(x),
{
    let q = field::order() as int;
    let n = field::reduce(x);
    field::lemma_order_large();
    field::lemma_reduce(x);
    field::lemma_reduce_small(0);
    let (g, u, v) = lemma_bezout(n, field::order());
    lemma_order_prime();
    lemma_divisor_bounded(g as int, n as int);
    assert(divides(g as int, q));
    vstd::arithmetic::div_mod::lemma_mod_multiples_vanish(-v, 1, q);
    assert(u * n == q * (-v) + 1) by (nonlinear_arith)
        requires
            u * n + v * q == 1,
    ;
    field::lemma_multiply(u, u, n as int, x);
    assert(field::inverts(u, x));
}

} // verus!
