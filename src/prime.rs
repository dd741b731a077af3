use vstd::prelude::*;

verus! {

/// The verdict of the evaluator on one value.
#[derive(Clone, Copy, Debug, PartialEq, Eq, Structural)]
pub struct PrimeVerification {
    pub value: u32,
    pub is_prime: bool,
}

/// `n` is prime: greater than one, with no divisor strictly between one and itself.
pub open spec fn is_prime_spec(n: int) -> bool {
    n > 1 && forall|d: int| 2 <= d < n ==> #[trigger] (n % d) != 0
}

/// No divisor of `n` lies in `[2, b)`.
pub open spec fn no_divisor_below(n: int, b: int) -> bool {
    forall|d: int| 2 <= d < b ==> #[trigger] (n % d) != 0
}

/// If `n` has no divisor below `b` and `b * b > n`, it has none below `n` either:
/// a divisor `d >= b` would pair with the divisor `n / d < b`.
proof fn lemma_trial_division_suffices(n: int, b: int)
    requires
        n > 1,
        b >= 2,
        b * b > n,
        no_divisor_below(n, b),
    ensures
        is_prime_spec(n),
{
    assert forall|d: int| 2 <= d < n implies #[trigger] (n % d) != 0 by {
        if d >= b && n % d == 0 {
            let q = n / d;
            assert(n == d * q) by (nonlinear_arith)
                requires n % d == 0, d > 0, q == n / d;
            assert(q >= 2) by (nonlinear_arith)
                requires n == d * q, d < n, n > 1, d > 0;
            assert(q < b) by (nonlinear_arith)
                requires n == d * q, d >= b, b * b > n, q >= 2, b >= 2;
            assert(n % q == 0) by (nonlinear_arith)
                requires n == d * q, q > 0;
            assert(n % q != 0);
        }
    }
}

/// Decides whether `n` is prime by trial division with every `d` such that
/// `d * d <= n`, that is every `d` in `[2, floor(sqrt(n))]`.
pub fn is_prime(n: u32) -> (r: PrimeVerification)
    ensures
        r.value == n,
        r.is_prime == is_prime_spec(n as int),
        n <= 1 ==> !r.is_prime,
{
    let mut respond = PrimeVerification { value: n, is_prime: false };
    if n <= 1 {
        return respond;
    }
    let mut a: u64 = 2;
    loop
        invariant
            n > 1,
            2 <= a <= n,
            respond == (PrimeVerification { value: n, is_prime: false }),
            no_divisor_below(n as int, a as int),
        ensures
            2 <= a,
            a * a > n,
            no_divisor_below(n as int, a as int),
        decreases n - a,
    {
        assert(a * a <= u64::MAX) by (nonlinear_arith)
            requires a <= n, n <= u32::MAX;
        if a * a > n as u64 {
            break;
        }
        if n as u64 % a == 0 {
            assert(a < n) by (nonlinear_arith)
                requires a * a <= n, a >= 2;
            assert(!is_prime_spec(n as int)) by {
                assert((n as int) % (a as int) == 0);
            }
            return respond;
        }
        assert(a + 1 <= n) by (nonlinear_arith)
            requires a * a <= n, a >= 2;
        a = a + 1;
    }
    proof {
        lemma_trial_division_suffices(n as int, a as int);
    }
    respond.is_prime = true;
    respond
}

/// `n` is one of the twenty-five primes up to one hundred.
pub open spec fn is_prime_to_one_hundred(n: int) -> bool {
    n == 2 || n == 3 || n == 5 || n == 7 || n == 11 || n == 13 || n == 17 || n == 19 || n == 23 || n == 29 || n == 31 || n == 37 || n == 41 || n == 43 || n == 47 || n == 53 || n == 59 || n == 61 || n == 67 || n == 71 || n == 73 || n == 79 || n == 83 || n == 89 || n == 97
}

/// Among `0..=100`, the evaluator's notion of a prime picks out exactly
/// the twenty-five primes `2, 3, 5, 7, ..., 89, 97`.
pub proof fn lemma_primes_to_one_hundred(n: int)
    requires
        0 <= n <= 100,
    ensures
        is_prime_spec(n) <==> is_prime_to_one_hundred(n),
{
    if is_prime_to_one_hundred(n) {
        if n < 4 {
            lemma_trial_division_suffices(n, 2);
        } else if n < 9 {
            assert(no_divisor_below(n, 3)) by {
                assert(n % 2 != 0);
            }
            lemma_trial_division_suffices(n, 3);
        } else {
            assert(no_divisor_below(n, 11)) by {
                assert(n % 2 != 0 && n % 3 != 0 && n % 4 != 0 && n % 5 != 0 && n % 6 != 0
                    && n % 7 != 0 && n % 8 != 0 && n % 9 != 0 && n % 10 != 0);
                assert forall|d: int| 2 <= d < 11 implies #[trigger] (n % d) != 0 by {
                    assert(d == 2 || d == 3 || d == 4 || d == 5 || d == 6 || d == 7 || d == 8
                        || d == 9 || d == 10);
                }
            }
            lemma_trial_division_suffices(n, 11);
        }
    } else if n > 1 {
        assert(n % 2 == 0 || n % 3 == 0 || n % 5 == 0 || n % 7 == 0);
        if n % 2 == 0 {
            assert(n % 2 == 0 && 2 < n);
        } else if n % 3 == 0 {
            assert(n % 3 == 0 && 3 < n);
        } else if n % 5 == 0 {
            assert(n % 5 == 0 && 5 < n);
        } else {
            assert(n % 7 == 0 && 7 < n);
        }
    }
}

} // verus!
