use vstd::prelude::*;
use vstd::arithmetic::div_mod::lemma_fundamental_div_mod;
use vstd::arithmetic::div_mod::lemma_mod_division_less_than_divisor;
use vstd::arithmetic::div_mod::lemma_mod_multiples_basic;
use vstd::arithmetic::div_mod::lemma_mod_multiples_vanish;
use vstd::arithmetic::div_mod::lemma_small_mod;

verus! {

/// Mathematical primality: at least 2, and no divisor strictly between 1
/// and the number itself.
pub open spec fn spec_is_prime(n: int) -> bool {
    n >= 2 && forall|d: int| 2 <= d < n ==> #[trigger] (n % d) != 0
}

/// The 0/1 encoding the is_prime export returns.
pub open spec fn prime_result(n: int) -> i64 {
    if spec_is_prime(n) {
        1i64
    } else {
        0i64
    }
}

/// A fuel budget that always suffices for the is_prime export; the trial
/// division inspects far fewer than `n` candidates.
pub open spec fn prime_fuel(n: int) -> int {
    if n <= 4 {
        0
    } else {
        n
    }
}

/// How many primes lie in `[2, n]`.
pub open spec fn spec_count_primes(n: int) -> int
    decreases n,
{
    if n < 2 {
        0
    } else {
        spec_count_primes(n - 1) + (if spec_is_prime(n) {
            1int
        } else {
            0int
        })
    }
}

/// A fuel budget that always suffices for the count_primes export: one unit
/// per candidate plus a full is_prime budget for each.
pub open spec fn count_fuel(n: int) -> int {
    if n < 2 {
        0
    } else {
        (n + 1) * (n + 1)
    }
}

pub proof fn lemma_count_primes_bounds(n: int)
    ensures
        0 <= spec_count_primes(n),
        n >= 1 ==> spec_count_primes(n) <= n - 1,
    decreases n,
{
    if n >= 2 {
        lemma_count_primes_bounds(n - 1);
    }
}

/// If `e` divides `n` and `p` divides `e`, then `p` divides `n`.
proof fn lemma_divides_transitive(n: int, e: int, p: int)
    requires
        n >= 1,
        e >= 1,
        p >= 1,
        n % e == 0,
        e % p == 0,
    ensures
        n % p == 0,
{
    lemma_fundamental_div_mod(n, e);
    lemma_fundamental_div_mod(e, p);
    let a = n / e;
    let b = e / p;
    assert(n == (b * a) * p) by (nonlinear_arith)
        requires
            n == e * a + 0,
            e == p * b + 0,
    ;
    lemma_mod_multiples_basic(b * a, p);
}

/// A number with any nontrivial divisor has one no larger than its square
/// root.
proof fn lemma_small_divisor(n: int, d: int)
    requires
        2 <= d < n,
        n % d == 0,
    ensures
        exists|e: int| 2 <= e && e * e <= n && #[trigger] (n % e) == 0,
{
    if d * d <= n {
        assert(2 <= d && d * d <= n && n % d == 0);
    } else {
        let e = n / d;
        lemma_fundamental_div_mod(n, d);
        assert(n == d * e);
        assert(e >= 2) by (nonlinear_arith)
            requires
                n == d * e,
                2 <= d,
                d < n,
        ;
        assert(e * e <= n) by (nonlinear_arith)
            requires
                n == d * e,
                d * d > n,
                e >= 1,
                d >= 2,
        ;
        lemma_mod_multiples_basic(d, e);
        assert(n % e == 0);
        assert(2 <= e && e * e <= n && n % e == 0);
    }
}

/// An integer divisible by neither 2 nor 3 leaves remainder 1 or 5 modulo 6.
proof fn lemma_coprime_to_six(e: int)
    requires
        e >= 1,
        e % 2 != 0,
        e % 3 != 0,
    ensures
        e % 6 == 1 || e % 6 == 5,
{
    let q = e / 6;
    let r = e % 6;
    lemma_fundamental_div_mod(e, 6);
    lemma_mod_division_less_than_divisor(e, 6);
    if r == 0 {
        assert(e == (3 * q) * 2) by (nonlinear_arith)
            requires
                e == 6 * q + 0,
        ;
        lemma_mod_multiples_basic(3 * q, 2);
    } else if r == 2 {
        assert(e == (3 * q + 1) * 2) by (nonlinear_arith)
            requires
                e == 6 * q + 2,
        ;
        lemma_mod_multiples_basic(3 * q + 1, 2);
    } else if r == 4 {
        assert(e == (3 * q + 2) * 2) by (nonlinear_arith)
            requires
                e == 6 * q + 4,
        ;
        lemma_mod_multiples_basic(3 * q + 2, 2);
    } else if r == 3 {
        assert(e == (2 * q + 1) * 3) by (nonlinear_arith)
            requires
                e == 6 * q + 3,
        ;
        lemma_mod_multiples_basic(2 * q + 1, 3);
    }
}

/// Residues modulo 6 of the integers following a candidate `i` with
/// `i % 6 == 5`: only `i + 2` and `i + 6` land back on a residue a prime
/// above 3 can have.
pub proof fn lemma_candidate_step(i: int)
    requires
        i >= 5,
        i % 6 == 5,
    ensures
        (i + 1) % 6 == 0,
        (i + 2) % 6 == 1,
        (i + 3) % 6 == 2,
        (i + 4) % 6 == 3,
        (i + 5) % 6 == 4,
        (i + 6) % 6 == 5,
{
    let q = i / 6;
    lemma_fundamental_div_mod(i, 6);
    assert(i == 6 * q + 5);
    lemma_mod_multiples_vanish(q + 1, 0, 6);
    assert((i + 1) % 6 == 0) by {
        assert(i + 1 == 6 * (q + 1) + 0);
    }
    lemma_mod_multiples_vanish(q + 1, 1, 6);
    assert((i + 2) % 6 == 1int % 6) by {
        assert(i + 2 == 6 * (q + 1) + 1);
    }
    lemma_small_mod(1, 6);
    lemma_mod_multiples_vanish(q + 1, 2, 6);
    assert(i + 3 == 6 * (q + 1) + 2);
    lemma_small_mod(2, 6);
    lemma_mod_multiples_vanish(q + 1, 3, 6);
    assert(i + 4 == 6 * (q + 1) + 3);
    lemma_small_mod(3, 6);
    lemma_mod_multiples_vanish(q + 1, 4, 6);
    assert(i + 5 == 6 * (q + 1) + 4);
    lemma_small_mod(4, 6);
    lemma_mod_multiples_vanish(q + 1, 5, 6);
    assert(i + 6 == 6 * (q + 1) + 5);
    lemma_small_mod(5, 6);
}

/// After checking 2, 3, and every candidate of the form 6k+5 or 6k+7 below
/// `i`, with `i * i` past `n`, no divisor of `n` can remain.
pub proof fn lemma_trial_division_complete(n: int, i: int)
    requires
        n >= 5,
        n % 2 != 0,
        n % 3 != 0,
        i >= 5,
        i % 6 == 5,
        i * i > n,
        forall|m: int| 5 <= m < i && (m % 6 == 5 || m % 6 == 1) ==> #[trigger] (n % m) != 0,
    ensures
        spec_is_prime(n),
{
    assert forall|d: int| 2 <= d < n implies #[trigger] (n % d) != 0 by {
        if n % d == 0 {
            lemma_small_divisor(n, d);
            let e = choose|e: int| 2 <= e && e * e <= n && #[trigger] (n % e) == 0;
            if e % 2 == 0 {
                lemma_divides_transitive(n, e, 2);
            } else if e % 3 == 0 {
                lemma_divides_transitive(n, e, 3);
            } else {
                lemma_coprime_to_six(e);
                assert(e != 2 && e != 3);
                assert(e != 4) by {
                    if e == 4 {
                        lemma_small_mod(0, 2);
                        assert(4int % 2 == 0) by {
                            lemma_mod_multiples_basic(2, 2);
                        }
                    }
                }
                assert(e >= 5);
                assert(e < i) by (nonlinear_arith)
                    requires
                        e * e <= n,
                        n < i * i,
                        e >= 2,
                        i >= 5,
                ;
                assert(n % e != 0);
            }
        }
    }
}

} // verus!
