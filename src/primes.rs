//! Primality by trial division.

use vstd::prelude::*;
use vstd::arithmetic::div_mod::{
    lemma_fundamental_div_mod,
    lemma_mod_multiples_basic,
    lemma_mod_multiples_vanish,
};

verus! {

/// `n` is prime: greater than one, with no divisor strictly between one
/// and itself.
pub open spec fn is_prime_number(n: int) -> bool {
    n > 1 && forall|d: int| 1 < d < n ==> #[trigger] (n % d) != 0
}

/// A multiple of a multiple of `k` is a multiple of `k`.
proof fn lemma_divides_transitive(n: int, d: int, k: int)
    requires
        d > 0,
        k > 0,
        n % d == 0,
        d % k == 0,
    ensures
        n % k == 0,
{
    lemma_fundamental_div_mod(n, d);
    lemma_fundamental_div_mod(d, k);
    let a = d / k;
    let b = n / d;
    assert(n == (a * b) * k) by (nonlinear_arith)
        requires
            n == d * b,
            d == k * a,
    ;
    lemma_mod_multiples_basic(a * b, k);
}

/// If `n` has no divisor below `i` and `i * i > n`, it has none at all.
proof fn lemma_no_small_divisor(n: int, i: int)
    requires
        n > 1,
        i > 1,
        i * i > n,
        forall|d: int| 1 < d < i ==> #[trigger] (n % d) != 0,
    ensures
        is_prime_number(n),
{
    assert forall|d: int| 1 < d < n implies #[trigger] (n % d) != 0 by {
        if d >= i && n % d == 0 {
            lemma_fundamental_div_mod(n, d);
            let e = n / d;
            assert(n == d * e);
            assert(1 < e < i) by (nonlinear_arith)
                requires
                    n == d * e,
                    d >= i,
                    d < n,
                    i * i > n,
                    i > 1,
            ;
            assert(n == e * d) by (nonlinear_arith)
                requires
                    n == d * e,
            ;
            lemma_mod_multiples_basic(d, e);
        }
    }
}

/// Whether `n` is prime. Tests 2 and 3, then the candidates `6k - 1` and
/// `6k + 1` up to the square root of `n`.
pub fn is_prime(n: u64) -> (r: bool)
    ensures
        r == is_prime_number(n as int),
{
    if n <= 1 {
        return false;
    }
    if n <= 3 {
        assert forall|d: int| 1 < d < n implies #[trigger] ((n as int) % d) != 0 by {
            assert(d == 2);
        }
        return true;
    }
    if n % 2 == 0 || n % 3 == 0 {
        return false;
    }
    assert forall|d: int| 1 < d < 5 implies #[trigger] ((n as int) % d) != 0 by {
        if d == 4 && (n as int) % d == 0 {
            lemma_divides_transitive(n as int, 4, 2);
        }
    }
    let mut i: u64 = 5;
    while i <= n / i
        invariant
            n > 3,
            n % 2 != 0,
            n % 3 != 0,
            5 <= i,
            i % 6 == 5,
            i <= n,
            forall|d: int| 1 < d < i ==> #[trigger] ((n as int) % d) != 0,
        decreases n - i,
    {
        assert(i * i <= n && i + 6 < n) by (nonlinear_arith)
            requires
                i <= n / i,
                i >= 5,
                n > 3,
        ;
        if n % i == 0 || n % (i + 2) == 0 {
            return false;
        }
        assert forall|d: int| 1 < d < i + 6 implies #[trigger] ((n as int) % d) != 0 by {
            if d >= i && d != i && d != i + 2 {
                if (n as int) % d == 0 {
                    if d % 6 == 0 || d % 6 == 2 || d % 6 == 4 {
                        lemma_divides_transitive(n as int, d, 2);
                    } else {
                        lemma_divides_transitive(n as int, d, 3);
                    }
                }
            }
        }
        i += 6;
    }
    assert(i * i > n) by (nonlinear_arith)
        requires
            i > n / i,
            i >= 5,
    ;
    proof {
        lemma_no_small_divisor(n as int, i as int);
    }
    true
}

/// `k` is at least 2 and has no divisor `d` with `2 <= d < p` other than
/// itself.
pub open spec fn no_divisor_below(k: int, p: int) -> bool {
    k >= 2 && forall|d: int| 2 <= d < p && d < k ==> #[trigger] (k % d) != 0
}

/// Once `p * p` exceeds `k`, having no divisor below `p` is being prime.
proof fn lemma_sieve_done(k: int, p: int)
    requires
        p > 1,
        p * p > k,
    ensures
        no_divisor_below(k, p) == is_prime_number(k),
{
    if no_divisor_below(k, p) && p <= k {
        lemma_no_small_divisor(k, p);
    }
}

/// Crossing out the multiples of `p` from `p * p` on extends "no divisor
/// below `p`" to "no divisor below `p + 1`".
proof fn lemma_sieve_step(k: int, p: int, marks_p: bool)
    requires
        p >= 2,
        marks_p == no_divisor_below(p, p),
    ensures
        no_divisor_below(k, p + 1) == (no_divisor_below(k, p) && !(marks_p && k >= p * p
            && k % p == 0)),
{
    if no_divisor_below(k, p) && k > p && k % p == 0 {
        lemma_fundamental_div_mod(k, p);
        let j = k / p;
        assert(k == p * j);
        assert(j >= 2) by (nonlinear_arith)
            requires
                k == p * j,
                k > p,
                p >= 2,
        ;
        assert(k == j * p) by (nonlinear_arith)
            requires
                k == p * j,
        ;
        lemma_mod_multiples_basic(p, j);
        if j < p {
            assert(j < k) by (nonlinear_arith)
                requires
                    k == j * p,
                    p >= 2,
                    j >= 2,
            ;
            assert(k % j == 0);
        } else {
            assert(k >= p * p) by (nonlinear_arith)
                requires
                    k == p * j,
                    j >= p,
                    p >= 2,
            ;
            if !marks_p {
                let d = choose|d: int| 2 <= d < p && d < p && #[trigger] (p % d) == 0;
                lemma_divides_transitive(k, p, d);
                assert(d < k);
            }
        }
    }
    if no_divisor_below(k, p) && marks_p && k >= p * p && k % p == 0 {
        assert(p < k) by (nonlinear_arith)
            requires
                k >= p * p,
                p >= 2,
        ;
    }
}

/// A table of `n + 1` flags in which entry `k` says whether `k` is prime,
/// made by the sieve of Eratosthenes.
pub fn sieve(n: usize) -> (r: Vec<bool>)
    requires
        n < usize::MAX,
    ensures
        r@.len() == n + 1,
        forall|k: int| 0 <= k <= n ==> #[trigger] r@[k] == is_prime_number(k),
{
    let mut flags: Vec<bool> = vec![true; n + 1];
    flags.set(0, false);
    if n > 0 {
        flags.set(1, false);
    }
    let mut p: usize = 2;
    assert forall|k: int| 0 <= k <= n implies #[trigger] flags@[k] == no_divisor_below(k, 2) by {}
    while p <= n / p
        invariant
            n < usize::MAX,
            flags@.len() == n + 1,
            2 <= p,
            p <= n + 2,
            forall|k: int| 0 <= k <= n ==> #[trigger] flags@[k] == no_divisor_below(k, p as int),
        decreases n + 2 - p,
    {
        assert(p * p <= n) by (nonlinear_arith)
            requires
                p <= n / p,
                p >= 2,
        ;
        let marks_p = flags[p];
        let ghost before = flags@;
        if marks_p {
            let mut multiple: usize = p * p;
            proof {
                lemma_mod_multiples_basic(p as int, p as int);
            }
            loop
                invariant_except_break
                    forall|k: int|
                        0 <= k <= n ==> #[trigger] flags@[k] == (before[k] && !(p * p <= k
                            < multiple && k % (p as int) == 0)),
                invariant
                    p >= 2,
                    flags@.len() == n + 1,
                    before.len() == n + 1,
                    p * p <= multiple <= n,
                    multiple % p == 0,
                ensures
                    flags@.len() == n + 1,
                    forall|k: int|
                        0 <= k <= n ==> #[trigger] flags@[k] == (before[k] && !(p * p <= k
                            && k % (p as int) == 0)),
                decreases n - multiple,
            {
                let ghost prev = flags@;
                flags.set(multiple, false);
                assert(forall|k: int| 0 <= k <= n && k != multiple ==> flags@[k] == prev[k]);
                assert(multiple as int % (p as int) == 0);
                if n - multiple < p {
                    assert forall|k: int| 0 <= k <= n implies #[trigger] flags@[k] == (
                    before[k] && !(p * p <= k && k % (p as int) == 0)) by {
                        if multiple < k && k % (p as int) == 0 {
                            assert(false) by (nonlinear_arith)
                                requires
                                    multiple < k <= n,
                                    n - multiple < p,
                                    multiple % p == 0,
                                    k % (p as int) == 0,
                                    p > 0,
                            ;
                        }
                    }
                    break;
                }
                assert forall|k: int| 0 <= k <= n implies #[trigger] flags@[k] == (before[k] && !(
                p * p <= k < multiple + p && k % (p as int) == 0)) by {
                    if multiple < k < multiple + p && k % (p as int) == 0 {
                        assert(false) by (nonlinear_arith)
                            requires
                                multiple < k < multiple + p,
                                multiple % p == 0,
                                k % (p as int) == 0,
                                p > 0,
                        ;
                    }
                }
                proof {
                    lemma_mod_multiples_vanish(1, multiple as int, p as int);
                    assert(p * 1 + multiple == multiple + p);
                }
                multiple = multiple + p;
            }
        }
        assert forall|k: int| 0 <= k <= n implies #[trigger] flags@[k] == no_divisor_below(
            k,
            p + 1,
        ) by {
            lemma_sieve_step(k, p as int, marks_p);
        }
        p += 1;
    }
    assert forall|k: int| 0 <= k <= n implies #[trigger] flags@[k] == is_prime_number(k) by {
        assert(p * p > n) by (nonlinear_arith)
            requires
                p > n / p,
                p >= 2,
        ;
        assert(p * p > k);
        lemma_sieve_done(k, p as int);
    }
    flags
}

/// How many primes lie in `0..=n`.
pub open spec fn prime_count_upto(n: int) -> nat
    decreases n + 1,
{
    if n < 0 {
        0
    } else {
        prime_count_upto(n - 1) + if is_prime_number(n) {
            1nat
        } else {
            0nat
        }
    }
}

/// The number of primes up to and including `n`, found with the sieve.
pub fn count_primes(n: usize) -> (r: usize)
    requires
        n < usize::MAX,
    ensures
        r == prime_count_upto(n as int),
{
    let flags = sieve(n);
    let mut count: usize = 0;
    let mut i: usize = 0;
    while i <= n
        invariant
            n < usize::MAX,
            flags@.len() == n + 1,
            forall|k: int| 0 <= k <= n ==> #[trigger] flags@[k] == is_prime_number(k),
            i <= n + 1,
            count <= i,
            count == prime_count_upto(i - 1),
        decreases n + 1 - i,
    {
        if flags[i] {
            count += 1;
        }
        i += 1;
    }
    count
}

/// The ranges `[start, end)` into which `0..n` is cut for `threads` workers:
/// equal pieces of `n / threads`, the last one running to `n`.
pub open spec fn segment_of(n: int, threads: int, i: int) -> (int, int) {
    let chunk = n / threads;
    (i * chunk, if i == threads - 1 {
        n
    } else {
        (i + 1) * chunk
    })
}

/// Cuts `0..n` into one range per worker.
pub fn prime_segments(n: usize, threads: usize) -> (r: Vec<(usize, usize)>)
    requires
        threads > 0,
    ensures
        r@.len() == threads,
        forall|i: int|
            0 <= i < threads ==> (#[trigger] r@[i]).0 == segment_of(n as int, threads as int, i).0
                && r@[i].1 == segment_of(n as int, threads as int, i).1,
{
    let chunk = n / threads;
    let mut out: Vec<(usize, usize)> = Vec::new();
    let mut i: usize = 0;
    while i < threads
        invariant
            threads > 0,
            chunk == n / threads,
            i <= threads,
            out@.len() == i,
            forall|j: int|
                0 <= j < i ==> (#[trigger] out@[j]).0 == segment_of(n as int, threads as int, j).0
                    && out@[j].1 == segment_of(n as int, threads as int, j).1,
        decreases threads - i,
    {
        assert((i + 1) * chunk <= n) by (nonlinear_arith)
            requires
                chunk == n / threads,
                i + 1 <= threads,
                threads > 0,
        ;
        assert(i * chunk <= (i + 1) * chunk) by (nonlinear_arith);
        let start = i * chunk;
        let end = if i == threads - 1 {
            n
        } else {
            (i + 1) * chunk
        };
        out.push((start, end));
        i += 1;
    }
    out
}

/// The flags of one segment `[start, end)`: every entry is marked a
/// candidate, except that where the segment starts at 0 or 1 and reaches
/// past 1, the entries for 0 and 1 are cleared.
pub fn segment_flags(start: usize, end: usize) -> (r: Vec<bool>)
    requires
        start <= end,
    ensures
        r@.len() == end - start,
        forall|k: int|
            0 <= k < end - start ==> #[trigger] r@[k] == !(start <= 1 && end > 1 && start + k
                <= 1),
{
    let len = end - start;
    let mut flags: Vec<bool> = vec![true; len];
    if start <= 1 && end > 1 {
        flags.set(0, false);
        flags.set(1 - start, false);
    }
    flags
}

} // verus!
