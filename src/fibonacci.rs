//! Fibonacci numbers by plain recursion.

use vstd::prelude::*;

verus! {

/// The `n`-th Fibonacci number: 0, 1, 1, 2, 3, 5, ...
pub open spec fn fib(n: nat) -> nat
    decreases n,
{
    if n <= 1 {
        n
    } else {
        fib((n - 1) as nat) + fib((n - 2) as nat)
    }
}

/// The sequence never decreases.
pub proof fn lemma_fib_monotonic(m: nat, n: nat)
    requires
        m <= n,
    ensures
        fib(m) <= fib(n),
    decreases n,
{
    if m < n {
        lemma_fib_monotonic(m, (n - 1) as nat);
    }
}

/// The `n`-th Fibonacci number, computed by the doubly recursive
/// definition; `None` where it does not fit in a `u64`.
pub fn fibonacci(n: u32) -> (r: Option<u64>)
    ensures
        r == if fib(n as nat) <= u64::MAX {
            Some(fib(n as nat) as u64)
        } else {
            None::<u64>
        },
    decreases n,
{
    if n <= 1 {
        return Some(n as u64);
    }
    proof {
        lemma_fib_monotonic((n - 1) as nat, n as nat);
        lemma_fib_monotonic((n - 2) as nat, n as nat);
    }
    match (fibonacci(n - 1), fibonacci(n - 2)) {
        (Some(a), Some(b)) => a.checked_add(b),
        _ => None,
    }
}

/// Fibonacci numbers `start..=end`, in order; `None` where one of them does
/// not fit in a `u64`.
pub fn fibonacci_range(start: u32, end: u32) -> (r: Option<Vec<u64>>)
    ensures
        match r {
            Some(v) => {
                &&& v@.len() == if start <= end {
                    end - start + 1
                } else {
                    0
                }
                &&& forall|i: int| 0 <= i < v@.len() ==> #[trigger] v@[i] == fib((start + i) as nat)
            },
            None => start <= end && fib(end as nat) > u64::MAX,
        },
{
    let mut out: Vec<u64> = Vec::new();
    if start > end {
        return Some(out);
    }
    let mut n: u32 = start;
    loop
        invariant
            start <= n <= end,
            out@.len() == n - start,
            forall|i: int| 0 <= i < out@.len() ==> #[trigger] out@[i] == fib((start + i) as nat),
        decreases end - n,
    {
        match fibonacci(n) {
            Some(f) => out.push(f),
            None => {
                proof {
                    lemma_fib_monotonic(n as nat, end as nat);
                }
                return None;
            },
        }
        if n == end {
            return Some(out);
        }
        n += 1;
    }
}

} // verus!
