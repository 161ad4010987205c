//! Arithmetic modulo a prime: inverses, powers, and a way to see that a number is prime.

use vstd::arithmetic::div_mod::{
    lemma_fundamental_div_mod, lemma_fundamental_div_mod_converse, lemma_mod_bound,
    lemma_mod_equivalence, lemma_mod_multiples_vanish, lemma_mul_mod_noop, lemma_small_mod,
};
use vstd::arithmetic::power::{
    lemma1_pow, lemma_pow0, lemma_pow1, lemma_pow_adds, lemma_pow_mod_noop, lemma_pow_multiplies,
    pow,
};
use vstd::arithmetic::power2::{
    lemma_pow2_adds, lemma_pow2_pos, lemma_pow2_strictly_increases, lemma_pow2_unfold, pow2,
};
use vstd::prelude::*;

verus! {

/// `m` has no divisors but one and itself.
pub open spec fn prime(m: int) -> bool {
    &&& m > 1
    &&& forall|d: int| 1 < d < m ==> #[trigger] (m % d) != 0
}

/// Products of congruent factors are congruent.
pub proof fn lemma_congruent_products(a: int, b: int, c: int, d: int, m: int)
    requires
        m > 0,
        a % m == b % m,
        c % m == d % m,
    ensures
        (a * c) % m == (b * d) % m,
{
    lemma_mul_mod_noop(a, c, m);
    lemma_mul_mod_noop(b, d, m);
}

/// Numbers that differ by a multiple of `m` are congruent.
pub proof fn lemma_congruent(a: int, b: int, k: int, m: int)
    requires
        m > 0,
        a == b + m * k,
    ensures
        a % m == b % m,
{
    lemma_mod_multiples_vanish(k, b, m);
}

/// What a divisor of `m` says of a remainder modulo `m`.
proof fn lemma_divisor_remainder(x: int, r: int, m: int, q: int)
    requires
        q > 0,
        m > 0,
        m % q == 0,
        x % m == r % m,
    ensures
        x % q == r % q,
{
    lemma_mod_equivalence(x, r, m);
    lemma_fundamental_div_mod(x - r, m);
    lemma_fundamental_div_mod(m, q);
    let (k, j) = ((x - r) / m, m / q);
    assert(x == r + q * (j * k)) by (nonlinear_arith)
        requires
            x - r == m * k,
            m == q * j,
    ;
    lemma_congruent(x, r, j * k, q);
}

/// An odd power of minus one is minus one.
pub proof fn lemma_odd_power(x: int, k: nat, m: int)
    requires
        m > 1,
        x % m == m - 1,
    ensures
        pow(x, 2 * k + 1) % m == m - 1,
    decreases k,
{
    if k == 0 {
        lemma_pow1(x);
    } else {
        lemma_odd_power(x, (k - 1) as nat, m);
        let e = (2 * k - 1) as nat;
        lemma_pow_adds(x, e, 2);
        lemma_pow_adds(x, 1, 1);
        lemma_pow1(x);
        lemma_small_mod((m - 1) as nat, m as nat);
        lemma_congruent_products(x, m - 1, x, m - 1, m);
        assert((m - 1) * (m - 1) == 1 + m * (m - 2)) by (nonlinear_arith);
        lemma_congruent((m - 1) * (m - 1), 1, m - 2, m);
        lemma_congruent_products(pow(x, e), m - 1, x * x, 1, m);
    }
}

/// A positive number is a power of two times an odd number.
proof fn lemma_odd_part(d: nat) -> (r: (nat, nat))
    requires
        d > 0,
    ensures
        d == pow2(r.0) * (2 * r.1 + 1),
    decreases d,
{
    if d % 2 == 1 {
        vstd::arithmetic::power2::lemma2_to64();
        (0, d / 2)
    } else {
        let (s, k) = lemma_odd_part(d / 2);
        lemma_pow2_unfold(s + 1);
        assert(d == pow2(s + 1) * (2 * k + 1)) by (nonlinear_arith)
            requires
                d == 2 * (d / 2),
                d / 2 == pow2(s) * (2 * k + 1),
                pow2(s + 1) == 2 * pow2(s),
        ;
        (s + 1, k)
    }
}

/// If `g^(2^e)` is minus one, then no smaller positive power than `g^(2^(e+1))` is one.
proof fn lemma_no_smaller_order(g: int, e: nat, d: nat, q: int)
    requires
        q > 2,
        pow(g, pow2(e)) % q == q - 1,
        0 < d < pow2(e + 1),
    ensures
        pow(g, d) % q != 1,
{
    if pow(g, d) % q == 1 {
        let (s, k) = lemma_odd_part(d);
        let odd = 2 * k + 1;
        lemma_pow2_pos(s);
        assert(pow2(s) <= d) by (nonlinear_arith)
            requires
                d == pow2(s) * (2 * k + 1),
        ;
        if s > e {
            if s > e + 1 {
                lemma_pow2_strictly_increases(e + 1, s);
            }
            assert(false);
        }
        let rest = (e - s) as nat;
        // `g^d` raised to `2^rest` is `(g^(2^e))^odd`.
        lemma_pow_multiplies(g, d, pow2(rest));
        lemma_pow_multiplies(g, pow2(e), odd);
        lemma_pow2_adds(s, rest);
        assert(d * pow2(rest) == pow2(e) * odd) by (nonlinear_arith)
            requires
                d == pow2(s) * odd,
                pow2(e) == pow2(s) * pow2(rest),
        ;
        lemma_odd_power(pow(g, pow2(e)), k, q);
        lemma_pow_mod_noop(pow(g, d), pow2(rest), q);
        lemma1_pow(pow2(rest));
        lemma_small_mod(1, q as nat);
    }
}

/// If `g^(2^e)` is minus one modulo `q`, then `q` is large: the powers of `g` are all different.
proof fn lemma_modulus_large(g: int, e: nat, q: int)
    requires
        q > 2,
        pow(g, pow2(e)) % q == q - 1,
    ensures
        q >= pow2(e + 1),
{
    let n = pow2(e + 1);
    lemma_pow2_unfold(e + 1);
    // `g^n` is one.
    assert(pow(g, n) % q == 1) by {
        lemma_pow_adds(g, pow2(e), pow2(e));
        lemma_small_mod((q - 1) as nat, q as nat);
        lemma_congruent_products(pow(g, pow2(e)), q - 1, pow(g, pow2(e)), q - 1, q);
        assert((q - 1) * (q - 1) == 1 + q * (q - 2)) by (nonlinear_arith);
        lemma_congruent((q - 1) * (q - 1), 1, q - 2, q);
        lemma_small_mod(1, q as nat);
    }
    let powers = Seq::new(n, |i: int| pow(g, i as nat) % q);
    assert forall|i: int, j: int| 0 <= i < j < n implies #[trigger] powers[i]
        != #[trigger] powers[j] by {
        if powers[i] == powers[j] {
            let (back, step) = ((n - i) as nat, (j - i) as nat);
            lemma_small_mod(1, q as nat);
            lemma_congruent_products(
                pow(g, back),
                pow(g, back),
                pow(g, i as nat),
                pow(g, j as nat),
                q,
            );
            lemma_pow_adds(g, back, i as nat);
            lemma_pow_adds(g, back, j as nat);
            lemma_pow_adds(g, n, step);
            assert(back + j as nat == n + step);
            assert(back + i as nat == n);
            lemma_congruent_products(pow(g, n), 1, pow(g, step), pow(g, step), q);
            lemma_no_smaller_order(g, e, step, q);
        }
    }
    assert(powers.no_duplicates());
    powers.unique_seq_to_set();
    vstd::set_lib::lemma_int_range(0, q);
    assert forall|x: int| powers.to_set().contains(x) implies vstd::set_lib::set_int_range(
        0,
        q,
    ).contains(x) by {
        let i = choose|i: int| 0 <= i < powers.len() && powers[i] == x;
        lemma_mod_bound(pow(g, i as nat), q);
    }
    vstd::set_lib::lemma_len_subset(powers.to_set(), vstd::set_lib::set_int_range(0, q));
}

/// An odd number below `4^(e+1)` is prime if `g^(2^e)` is minus one modulo it, for some `g`.
pub proof fn lemma_prime(g: int, e: nat, m: int)
    requires
        m > 2,
        m % 2 == 1,
        m < pow2(e + 1) * pow2(e + 1),
        pow(g, pow2(e)) % m == m - 1,
    ensures
        prime(m),
{
    assert forall|d: int| 1 < d < m implies #[trigger] (m % d) != 0 by {
        if m % d == 0 {
            lemma_fundamental_div_mod(m, d);
            let c = m / d;
            assert(1 < c < m) by (nonlinear_arith)
                requires
                    m == d * c,
                    1 < d < m,
            ;
            lemma_fundamental_div_mod_converse(m, c, d, 0);
            lemma_factor_large(g, e, m, d);
            lemma_factor_large(g, e, m, c);
            let n = pow2(e + 1);
            assert(d * c >= n * n) by (nonlinear_arith)
                requires
                    d >= n,
                    c >= n,
                    n >= 0,
            ;
        }
    }
}

proof fn lemma_factor_large(g: int, e: nat, m: int, d: int)
    requires
        1 < d < m,
        m % d == 0,
        m % 2 == 1,
        pow(g, pow2(e)) % m == m - 1,
    ensures
        d >= pow2(e + 1),
{
    lemma_small_mod((m - 1) as nat, m as nat);
    lemma_divisor_remainder(pow(g, pow2(e)), m - 1, m, d);
    lemma_fundamental_div_mod(m, d);
    assert(m - 1 == (d - 1) + d * (m / d - 1)) by (nonlinear_arith)
        requires
            m == d * (m / d),
    ;
    lemma_congruent(m - 1, d - 1, m / d - 1, d);
    lemma_small_mod((d - 1) as nat, d as nat);
    lemma_modulus_large(g, e, d);
}

/// Modulo a prime, every number but zero has an inverse.
pub proof fn lemma_prime_inverse(a: int, m: int) -> (w: int)
    requires
        prime(m),
        0 < a < m,
    ensures
        0 < w < m,
        (a * w) % m == 1,
    decreases a,
{
    if a == 1 {
        lemma_small_mod(1, m as nat);
        1
    } else {
        lemma_fundamental_div_mod(m, a);
        lemma_mod_bound(m, a);
        let (k, r) = (m / a, m % a);
        let v = lemma_prime_inverse(r, m);
        let w = (-(k * v)) % m;
        lemma_mod_bound(-(k * v), m);
        lemma_fundamental_div_mod(-(k * v), m);
        let h = (-(k * v)) / m;
        // `r = m - a k`, so `a * (-k v) = r v - m v`.
        assert(a * w == r * v + m * (-v - a * h)) by (nonlinear_arith)
            requires
                m == a * k + r,
                -(k * v) == m * h + w,
        ;
        lemma_congruent(a * w, r * v, -v - a * h, m);
        if w == 0 {
            lemma_small_mod(0, m as nat);
            assert(false);
        }
        w
    }
}

/// Modulo a prime, a product is zero only if a factor is.
pub proof fn lemma_prime_product(a: int, b: int, m: int)
    requires
        prime(m),
        0 < a < m,
        0 < b < m,
    ensures
        0 < (a * b) % m < m,
{
    lemma_mod_bound(a * b, m);
    if (a * b) % m == 0 {
        let w = lemma_prime_inverse(a, m);
        lemma_small_mod(0, m as nat);
        lemma_small_mod(1, m as nat);
        lemma_congruent_products(a * b, 0, w, w, m);
        lemma_congruent_products(a * w, 1, b, b, m);
        assert((a * b) * w == (a * w) * b) by (nonlinear_arith);
        lemma_small_mod(b as nat, m as nat);
        assert(false);
    }
}

/// The product of a list of numbers modulo `m`.
spec fn product_mod(s: Seq<int>, m: int) -> int {
    s.fold_left(1, |acc: int, x: int| (acc * x) % m)
}

proof fn lemma_product_mod_push(s: Seq<int>, x: int, m: int)
    ensures
        product_mod(s.push(x), m) == (product_mod(s, m) * x) % m,
{
    assert(s.push(x).drop_last() =~= s);
}

/// The order of the factors does not matter.
proof fn lemma_product_mod_permutation(s: Seq<int>, t: Seq<int>, m: int)
    requires
        m > 0,
        s.to_multiset() == t.to_multiset(),
    ensures
        product_mod(s, m) == product_mod(t, m),
{
    let f = |acc: int, x: int| (acc * x) % m;
    assert forall|x: int, y: int, v: int| #[trigger] f(f(v, x), y) == f(f(v, y), x) by {
        vstd::arithmetic::div_mod::lemma_mod_twice(v * x, m);
        vstd::arithmetic::div_mod::lemma_mod_twice(v * y, m);
        lemma_congruent_products((v * x) % m, v * x, y, y, m);
        lemma_congruent_products((v * y) % m, v * y, x, x, m);
        assert((v * x) * y == (v * y) * x) by (nonlinear_arith);
    }
    vstd::seq_lib::lemma_fold_left_permutation(s, t, f, 1);
}

/// The numbers `1`, ..., `n`.
spec fn first_numbers(n: nat) -> Seq<int> {
    Seq::new(n, |i: int| i + 1)
}

/// Their multiples by `a` modulo `m`.
spec fn first_multiples(a: int, n: nat, m: int) -> Seq<int> {
    Seq::new(n, |i: int| (a * (i + 1)) % m)
}

/// The product of the multiples is the product of the numbers times a power of `a`, and neither is
/// zero.
proof fn lemma_product_of_multiples(a: int, n: nat, m: int)
    requires
        prime(m),
        n < m,
    ensures
        product_mod(first_multiples(a, n, m), m) == (pow(a, n) * product_mod(
            first_numbers(n),
            m,
        )) % m,
        0 < product_mod(first_numbers(n), m) < m,
    decreases n,
{
    if n == 0 {
        lemma_pow0(a);
        lemma_small_mod(1, m as nat);
    } else {
        let k = (n - 1) as nat;
        lemma_product_of_multiples(a, k, m);
        assert(first_numbers(n) =~= first_numbers(k).push(n as int));
        assert(first_multiples(a, n, m) =~= first_multiples(a, k, m).push((a * n) % m));
        lemma_product_mod_push(first_numbers(k), n as int, m);
        lemma_product_mod_push(first_multiples(a, k, m), (a * n) % m, m);
        let (p, q) = (product_mod(first_numbers(k), m), product_mod(first_multiples(a, k, m), m));
        lemma_prime_product(p, n as int, m);
        vstd::arithmetic::div_mod::lemma_mod_twice(pow(a, k) * p, m);
        vstd::arithmetic::div_mod::lemma_mod_twice(a * n, m);
        vstd::arithmetic::div_mod::lemma_mod_twice(p * n, m);
        lemma_congruent_products(q, pow(a, k) * p, (a * n) % m, a * n, m);
        lemma_pow_adds(a, k, 1);
        lemma_pow1(a);
        assert((pow(a, k) * p) * (a * n) == (pow(a, k) * a) * (p * n)) by (nonlinear_arith);
        lemma_congruent_products(pow(a, n), pow(a, n), (p * n) % m, p * n, m);
    }
}

/// Modulo a prime, the multiples of `a` are the numbers in another order.
proof fn lemma_multiples_permute(a: int, m: int)
    requires
        prime(m),
        0 < a < m,
    ensures
        first_multiples(a, (m - 1) as nat, m).to_multiset() == first_numbers(
            (m - 1) as nat,
        ).to_multiset(),
{
    broadcast use vstd::seq_lib::group_to_multiset_ensures;

    let n = (m - 1) as nat;
    let (s, t) = (first_numbers(n), first_multiples(a, n, m));
    assert forall|i: int, j: int| 0 <= i < j < n implies #[trigger] t[i] != #[trigger] t[j] by {
        if t[i] == t[j] {
            let w = lemma_prime_inverse(a, m);
            let (x, y) = (i + 1, j + 1);
            lemma_small_mod(1, m as nat);
            lemma_congruent_products(a * x, a * y, w, w, m);
            lemma_congruent_products(a * w, 1, x, x, m);
            lemma_congruent_products(a * w, 1, y, y, m);
            assert((a * x) * w == (a * w) * x && (a * y) * w == (a * w) * y) by (nonlinear_arith);
            lemma_small_mod(x as nat, m as nat);
            lemma_small_mod(y as nat, m as nat);
        }
    }
    assert(t.no_duplicates());
    assert(s.no_duplicates());
    t.unique_seq_to_set();
    s.unique_seq_to_set();
    assert(s.to_set().finite() && t.to_set().finite()) by {
        vstd::seq_lib::seq_to_set_is_finite(s);
        vstd::seq_lib::seq_to_set_is_finite(t);
    }
    assert forall|x: int| t.to_set().contains(x) implies s.to_set().contains(x) by {
        let i = choose|i: int| 0 <= i < t.len() && t[i] == x;
        lemma_prime_product(a, i + 1, m);
        assert(s[x - 1] == x);
    }
    vstd::set_lib::lemma_subset_equality(t.to_set(), s.to_set());
    s.lemma_multiset_has_no_duplicates();
    t.lemma_multiset_has_no_duplicates();
    assert forall|x: int| s.to_multiset().count(x) == t.to_multiset().count(x) by {
        assert(s.to_set().contains(x) == t.to_set().contains(x));
        assert(s.contains(x) == t.contains(x));
        assert(s.to_multiset().contains(x) == (s.to_multiset().count(x) > 0));
        assert(t.to_multiset().contains(x) == (t.to_multiset().count(x) > 0));
    }
    assert(t.to_multiset() =~= s.to_multiset());
}

/// Fermat's little theorem.
pub proof fn lemma_fermat(a: int, m: int)
    requires
        prime(m),
        0 < a < m,
    ensures
        pow(a, (m - 1) as nat) % m == 1,
{
    let n = (m - 1) as nat;
    lemma_multiples_permute(a, m);
    lemma_product_mod_permutation(first_multiples(a, n, m), first_numbers(n), m);
    lemma_product_of_multiples(a, n, m);
    let p = product_mod(first_numbers(n), m);
    let w = lemma_prime_inverse(p, m);
    // `a^n p = p`, and `p` can be cancelled.
    lemma_small_mod(p as nat, m as nat);
    lemma_small_mod(1, m as nat);
    lemma_congruent_products(pow(a, n) * p, p, w, w, m);
    lemma_congruent_products(pow(a, n), pow(a, n), p * w, 1, m);
    assert((pow(a, n) * p) * w == pow(a, n) * (p * w)) by (nonlinear_arith);
}

/// A number whose order is the largest power of two that divides `m - 1` is no square modulo the prime
/// `m`.
pub proof fn lemma_not_a_square(u: int, g: int, e: nat, k: nat, m: int)
    requires
        prime(m),
        m > 2,
        m - 1 == pow2(e + 1) * (2 * k + 1),
        pow(g, pow2(e)) % m == m - 1,
        0 < u < m,
    ensures
        (u * u) % m != g % m,
{
    if (u * u) % m == g % m {
        lemma_pow2_unfold(e + 1);
        lemma_pow_adds(u, 1, 1);
        lemma_pow1(u);
        lemma_pow_multiplies(u, 2, pow2(e));
        lemma_pow_mod_noop(u * u, pow2(e), m);
        lemma_pow_mod_noop(g, pow2(e), m);
        assert(pow(u, pow2(e + 1)) % m == m - 1);
        lemma_odd_power(pow(u, pow2(e + 1)), k, m);
        lemma_pow_multiplies(u, pow2(e + 1), 2 * k + 1);
        lemma_fermat(u, m);
    }
}

} // verus!
