use vstd::prelude::*;
use vstd::wrapping::i32_specs;
use vstd::wrapping::i64_specs;

verus! {

/// `i32` sum with wraparound.
pub open spec fn wrap_add32(a: i32, b: i32) -> i32 {
    i32_specs::wrapping_add(a, b)
}

/// `i32` product with wraparound.
pub open spec fn wrap_mul32(a: i32, b: i32) -> i32 {
    i32_specs::wrapping_mul(a, b)
}

/// `i64` sum with wraparound.
pub open spec fn wrap_add64(a: i64, b: i64) -> i64 {
    i64_specs::wrapping_add(a, b)
}

/// `i64` product with wraparound.
pub open spec fn wrap_mul64(a: i64, b: i64) -> i64 {
    i64_specs::wrapping_mul(a, b)
}

/// Recursive wrapping factorial: `n <= 1` gives 1, otherwise `n` (widened to
/// `i64`) times the factorial of `n - 1`, with `i64` wraparound.
pub open spec fn spec_factorial(n: int) -> i64
    decreases n,
{
    if n <= 1 {
        1i64
    } else {
        wrap_mul64(n as i64, spec_factorial(n - 1))
    }
}

/// Fuel the factorial export consumes: one unit per recursive call made.
pub open spec fn factorial_cost(n: int) -> int {
    if n <= 1 {
        0
    } else {
        n - 1
    }
}

/// Accumulator of the spin export after `k` iterations: the wrapping sum of
/// `0, 1, ..., k - 1`.
pub open spec fn spec_spin(k: int) -> i32
    decreases k,
{
    if k <= 0 {
        0i32
    } else {
        wrap_add32(spec_spin(k - 1), (k - 1) as i32)
    }
}

/// Fuel the spin export consumes: one unit per loop iteration.
pub open spec fn spin_cost(n: int) -> int {
    if n <= 0 {
        0
    } else {
        n
    }
}

/// Accumulator of the nested_loops export at the point where the outer
/// counter stands at `i` and the inner counter at `j`: the wrapping sum of
/// `a * b` (wrapping product) over all completed steps.
pub open spec fn nested_acc(n: int, i: int, j: int) -> i32
    decreases i, j,
{
    if j > 0 {
        wrap_add32(nested_acc(n, i, j - 1), wrap_mul32(i as i32, (j - 1) as i32))
    } else if i > 0 {
        nested_acc(n, i - 1, n)
    } else {
        0i32
    }
}

/// Final accumulator of the nested_loops export.
pub open spec fn spec_nested(n: int) -> i32 {
    if n <= 0 {
        0i32
    } else {
        nested_acc(n, n, 0)
    }
}

/// Fuel the nested_loops export consumes: one unit per inner iteration.
pub open spec fn nested_cost(n: int) -> int {
    if n <= 0 {
        0
    } else {
        n * n
    }
}

/// Naive recursive Fibonacci with `i64` wraparound; `n <= 1` gives `n`.
pub open spec fn spec_fib(n: int) -> i64
    decreases n,
{
    if n <= 1 {
        n as i64
    } else {
        wrap_add64(spec_fib(n - 1), spec_fib(n - 2))
    }
}

/// Fuel the fib export consumes: one unit charged before each of the two
/// recursive calls of the naive recursion.
pub open spec fn fib_cost(n: int) -> int
    decreases n,
{
    if n <= 1 {
        0
    } else {
        2 + fib_cost(n - 1) + fib_cost(n - 2)
    }
}

pub proof fn lemma_fib_cost_nonneg(n: int)
    ensures
        fib_cost(n) >= 0,
    decreases n,
{
    if n > 1 {
        lemma_fib_cost_nonneg(n - 1);
        lemma_fib_cost_nonneg(n - 2);
    }
}

} // verus!
