//! The native-extension exercise: summing the primes up to a limit. The
//! scripting-runtime boundary is a thin unverified shell; the arithmetic
//! itself is here, with trial division proved equivalent to primality.

use vstd::prelude::*;
use vstd::arithmetic::div_mod::lemma_fundamental_div_mod;
use vstd::arithmetic::div_mod::lemma_mod_multiples_basic;

verus! {

/// Primality: at least 2, with no divisor strictly between 1 and itself.
pub open spec fn spec_is_prime(n: nat) -> bool {
    n >= 2 && forall|m: nat| 2 <= m < n ==> #[trigger] (n % m) != 0
}

/// The sum of all primes up to and including `limit`.
pub open spec fn spec_prime_sum(limit: nat) -> nat
    decreases limit,
{
    if limit < 2 {
        0
    } else {
        spec_prime_sum((limit - 1) as nat) + if spec_is_prime(limit) {
            limit
        } else {
            0nat
        }
    }
}

/// Trial division visits divisors only up to the square root: a composite
/// number always has a divisor no larger than its square root's cofactor.
proof fn lemma_trial_division(n: u64, i: u64)
    requires
        n >= 2,
        i >= 2,
        i > n / i,
        forall|m: u64| 2 <= m < i ==> #[trigger] ((n as nat) % (m as nat)) != 0,
    ensures
        spec_is_prime(n as nat),
{
    let q = (n as int) / (i as int);
    lemma_fundamental_div_mod(n as int, i as int);
    assert(n < i * i) by (nonlinear_arith)
        requires
            n as int == (i as int) * q + (n as int) % (i as int),
            (n as int) % (i as int) < i,
            q < i,
            i >= 2,
    ;
    assert forall|m: nat| 2 <= m < n implies #[trigger] ((n as nat) % m) != 0 by {
        if (n as nat) % m == 0 {
            let k = (n as int) / (m as int);
            lemma_fundamental_div_mod(n as int, m as int);
            assert(n == m * k);
            assert(k >= 2) by (nonlinear_arith)
                requires
                    n == m * k,
                    2 <= m < n,
                    n >= 2,
            ;
            if m < i {
                assert((n as nat) % ((m as u64) as nat) != 0);
            } else {
                // The cofactor k divides n as well, and lies below i.
                assert(k < i) by (nonlinear_arith)
                    requires
                        n == m * k,
                        m >= i,
                        k >= 2,
                        n < i * i,
                        i >= 2,
                ;
                assert((n as int) % (k as int) == 0) by {
                    lemma_mod_multiples_basic(m as int, k as int);
                    assert(n as int == (m as int) * (k as int));
                }
                assert((n as nat) % ((k as u64) as nat) != 0);
                assert((n as nat) % ((k as u64) as nat) == (n as nat) % (k as nat));
            }
        }
    }
}

/// Decide primality by trial division up to the square root.
pub fn is_prime(n: u64) -> (r: bool)
    ensures
        r == spec_is_prime(n as nat),
{
    if n <= 1 {
        return false;
    }
    let mut i: u64 = 2;
    while i <= n / i
        invariant
            n >= 2,
            2 <= i <= n,
            forall|m: u64| 2 <= m < i ==> #[trigger] ((n as nat) % (m as nat)) != 0,
        decreases n - i,
    {
        proof {
            let q = (n as int) / (i as int);
            lemma_fundamental_div_mod(n as int, i as int);
            assert(i < n) by (nonlinear_arith)
                requires
                    n as int == (i as int) * q + (n as int) % (i as int),
                    (n as int) % (i as int) >= 0,
                    q >= i,
                    i >= 2,
            ;
        }
        if n % i == 0 {
            proof {
                assert((n as nat) % (i as nat) == 0);
            }
            return false;
        }
        i = i + 1;
    }
    proof {
        lemma_trial_division(n, i);
    }
    true
}

/// The prime sum grows with its limit.
proof fn lemma_prime_sum_monotone(a: nat, b: nat)
    requires
        a <= b,
    ensures
        spec_prime_sum(a) <= spec_prime_sum(b),
    decreases b,
{
    if a < b && b >= 2 {
        lemma_prime_sum_monotone(a, (b - 1) as nat);
    }
}

/// Sum the primes up to and including `limit`, reporting an overflow of
/// the machine word as `None` instead of a wrapped sum.
pub fn sum_primes_checked(limit: u64) -> (r: Option<u64>)
    ensures
        r is Some <==> spec_prime_sum(limit as nat) <= u64::MAX,
        r matches Some(s) ==> s as nat == spec_prime_sum(limit as nat),
{
    if limit < 2 {
        return Some(0);
    }
    let mut sum: u64 = 0;
    let mut i: u64 = 2;
    loop
        invariant
            2 <= i <= limit,
            sum as nat == spec_prime_sum((i - 1) as nat),
        decreases limit - i,
    {
        if is_prime(i) {
            if sum > u64::MAX - i {
                proof {
                    assert(spec_prime_sum(i as nat) == spec_prime_sum((i - 1) as nat)
                        + i);
                    lemma_prime_sum_monotone(i as nat, limit as nat);
                }
                return None;
            }
            sum = sum + i;
        }
        proof {
            if !spec_is_prime(i as nat) {
                assert(spec_prime_sum(i as nat) == spec_prime_sum((i - 1) as nat));
            }
        }
        if i == limit {
            return Some(sum);
        }
        i = i + 1;
    }
}

/// Sum the primes up to and including `limit`; the caller vouches that the
/// sum fits the machine word.
pub fn sum_primes(limit: u64) -> (r: u64)
    requires
        spec_prime_sum(limit as nat) <= u64::MAX,
    ensures
        r as nat == spec_prime_sum(limit as nat),
{
    match sum_primes_checked(limit) {
        Some(s) => s,
        None => {
            proof {
                assert(false);
            }
            0
        },
    }
}

} // verus!
