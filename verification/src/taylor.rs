//! Integer part of the Taylor series for sine and cosine: the factorials in
//! the denominators of its terms.

use vstd::prelude::*;

verus! {

/// The largest argument whose factorial fits in an `i32`.
pub const FACTORIAL_LIMIT: i32 = 12;

/// The product `1 * 2 * .. * n`; 1 for every `n` below 2.
pub open spec fn factorial_of(n: int) -> int
    decreases n,
{
    if n <= 1 {
        1
    } else {
        n * factorial_of(n - 1)
    }
}

/// The factorials up to the limit.
pub proof fn lemma_factorial_values()
    ensures
        factorial_of(2) == 2,
        factorial_of(3) == 6,
        factorial_of(4) == 24,
        factorial_of(5) == 120,
        factorial_of(6) == 720,
        factorial_of(7) == 5040,
        factorial_of(8) == 40320,
        factorial_of(9) == 362880,
        factorial_of(10) == 3628800,
        factorial_of(11) == 39916800,
        factorial_of(12) == 479001600,
{
    reveal_with_fuel(factorial_of, 13);
}

/// Computes the factorial of `n`; 1 for every `n` below 2.
pub fn factorial(n: i32) -> (r: i32)
    requires
        n <= FACTORIAL_LIMIT,
    ensures
        r == factorial_of(n as int),
    decreases n,
{
    if n <= 1 {
        1
    } else {
        let rest = factorial(n - 1);
        proof {
            lemma_factorial_values();
        }
        n * rest
    }
}

} // verus!
