//! Divisibility and primality over the mathematical integers, and the fact
//! that trial division rests on: a composite number has a prime factor no
//! larger than its square root.

use vstd::prelude::*;
use vstd::arithmetic::div_mod::{lemma_fundamental_div_mod, lemma_mod_multiples_basic};

verus! {

/// `d` is a positive divisor of `n`.
pub open spec fn is_factor(d: int, n: int) -> bool {
    d > 0 && n % d == 0
}

/// `n` is a prime number: at least 2, and no number strictly between 1 and
/// `n` divides it.
pub open spec fn is_prime(n: int) -> bool {
    n >= 2 && forall|d: int| 2 <= d < n ==> !#[trigger] is_factor(d, n)
}

/// The smallest divisor of `n` that is at least `from`, searched upwards;
/// `n` itself where the search finds none below it.
pub open spec fn least_factor_from(n: int, from: int) -> int
    decreases n - from,
{
    if from >= n {
        n
    } else if is_factor(from, n) {
        from
    } else {
        least_factor_from(n, from + 1)
    }
}

/// The smallest divisor of `n` that is larger than 1.
pub open spec fn least_factor(n: int) -> int {
    least_factor_from(n, 2)
}

/// The number 2 is prime.
pub proof fn lemma_two_is_prime()
    ensures
        is_prime(2),
{
}

/// A multiple of a positive number has that number as a factor.
pub proof fn lemma_multiple_has_factor(d: int, k: int)
    requires
        d > 0,
    ensures
        is_factor(d, d * k),
{
    lemma_mod_multiples_basic(k, d);
    assert(k * d == d * k) by (nonlinear_arith);
}

/// A number is the product of any of its factors and the matching quotient.
pub proof fn lemma_factor_splits(d: int, n: int)
    requires
        is_factor(d, n),
    ensures
        n == d * (n / d),
{
    lemma_fundamental_div_mod(n, d);
}

/// Divisibility is transitive.
pub proof fn lemma_factor_transitive(a: int, b: int, c: int)
    requires
        is_factor(a, b),
        is_factor(b, c),
    ensures
        is_factor(a, c),
{
    lemma_factor_splits(a, b);
    lemma_factor_splits(b, c);
    let x = b / a;
    let y = c / b;
    assert(c == a * (x * y)) by (nonlinear_arith)
        requires
            b == a * x,
            c == b * y,
    ;
    lemma_multiple_has_factor(a, x * y);
}

/// Every number from 2 on is a factor of itself.
pub proof fn lemma_self_factor(n: int)
    requires
        n > 0,
    ensures
        is_factor(n, n),
{
    lemma_multiple_has_factor(n, 1);
    assert(n * 1 == n);
}

/// The upward search returns a divisor of `n`, and passes over no divisor.
pub proof fn lemma_least_factor_from(n: int, from: int)
    requires
        2 <= from <= n,
    ensures
        from <= least_factor_from(n, from) <= n,
        is_factor(least_factor_from(n, from), n),
        forall|d: int| from <= d < least_factor_from(n, from) ==> !#[trigger] is_factor(d, n),
    decreases n - from,
{
    if from >= n {
        lemma_self_factor(n);
    } else if is_factor(from, n) {
    } else {
        lemma_least_factor_from(n, from + 1);
    }
}

/// The smallest divisor above 1 of a number from 2 on is a prime.
pub proof fn lemma_least_factor_is_prime(n: int)
    requires
        n >= 2,
    ensures
        is_prime(least_factor(n)),
        is_factor(least_factor(n), n),
        2 <= least_factor(n) <= n,
        forall|d: int| 2 <= d < least_factor(n) ==> !#[trigger] is_factor(d, n),
{
    let p = least_factor(n);
    lemma_least_factor_from(n, 2);
    assert forall|d: int| 2 <= d < p implies !#[trigger] is_factor(d, p) by {
        if is_factor(d, p) {
            lemma_factor_transitive(d, p, n);
        }
    }
}

/// A number from 2 on that is not prime has a prime factor whose square
/// does not exceed it.
pub proof fn lemma_composite_has_small_prime_factor(n: int)
    requires
        n >= 2,
        !is_prime(n),
    ensures
        is_prime(least_factor(n)),
        is_factor(least_factor(n), n),
        least_factor(n) * least_factor(n) <= n,
{
    let p = least_factor(n);
    lemma_least_factor_is_prime(n);
    let witness = choose|d: int| 2 <= d < n && is_factor(d, n);
    assert(p <= witness);
    lemma_factor_splits(p, n);
    let q = n / p;
    assert(q >= 2) by (nonlinear_arith)
        requires
            n == p * q,
            2 <= p < n,
    ;
    assert(is_factor(q, n)) by {
        lemma_multiple_has_factor(q, p);
        assert(q * p == p * q) by (nonlinear_arith);
    }
    assert(q >= p);
    assert(p * p <= p * q) by (nonlinear_arith)
        requires
            q >= p,
            p >= 2,
    ;
}

/// A number from 2 on is prime if no prime whose square fits under it
/// divides it.
pub proof fn lemma_prime_by_trial_division(n: int)
    requires
        n >= 2,
        forall|p: int| is_prime(p) && p * p <= n ==> !#[trigger] is_factor(p, n),
    ensures
        is_prime(n),
{
    if !is_prime(n) {
        lemma_composite_has_small_prime_factor(n);
    }
}

/// Below 49 a number from 2 on is prime if none of 2, 3 and 5 is a proper
/// factor of it.
pub proof fn lemma_prime_below_49(n: int)
    requires
        2 <= n < 49,
        n == 2 || n % 2 != 0,
        n == 3 || n % 3 != 0,
        n == 5 || n % 5 != 0,
    ensures
        is_prime(n),
{
    assert forall|p: int| is_prime(p) && p * p <= n implies !#[trigger] is_factor(p, n) by {
        assert(p < 7) by (nonlinear_arith)
            requires
                p >= 2,
                p * p <= n,
                n < 49,
        ;
        assert(is_factor(2, 4) && is_factor(2, 6));
        if p == 2 {
            assert(p * p == 4);
        } else if p == 3 {
            assert(p * p == 9);
        } else {
            assert(p == 5);
            assert(p * p == 25);
        }
    }
    lemma_prime_by_trial_division(n);
}

/// The primes up to 30 are 2, 3, 5, 7, 11, 13, 17, 19, 23 and 29.
pub proof fn lemma_primes_upto_30()
    ensures
        forall|n: int|
            0 <= n <= 30 ==> (#[trigger] is_prime(n) <==> n == 2 || n == 3 || n == 5 || n == 7
                || n == 11 || n == 13 || n == 17 || n == 19 || n == 23 || n == 29),
{
    assert forall|n: int| 0 <= n <= 30 implies (#[trigger] is_prime(n) <==> n == 2 || n == 3 || n
        == 5 || n == 7 || n == 11 || n == 13 || n == 17 || n == 19 || n == 23 || n == 29) by {
        if n == 2 || n == 3 || n == 5 || n == 7 || n == 11 || n == 13 || n == 17 || n == 19 || n
            == 23 || n == 29 {
            lemma_prime_below_49(n);
        } else if n >= 2 {
            if n % 2 == 0 {
                assert(is_factor(2, n));
            } else if n % 3 == 0 {
                assert(is_factor(3, n));
            } else {
                assert(n == 25);
                assert(is_factor(5, n));
            }
        }
    }
}

/// Squaring keeps the order of the natural numbers.
pub proof fn lemma_square_monotonic(a: int, b: int)
    requires
        0 <= a <= b,
    ensures
        a * a <= b * b,
{
    assert(a * a <= b * b) by (nonlinear_arith)
        requires
            0 <= a <= b,
    ;
}

} // verus!
