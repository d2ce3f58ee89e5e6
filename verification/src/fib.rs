use vstd::prelude::*;
use vstd::wrapping::u32_specs;

verus! {

/// The pair of consecutive Fibonacci terms at index `n`, in 32-bit wrapping
/// arithmetic.  The pair at index 0 is `(0, 1)`; each step shifts the pair
/// and wraps the sum modulo `2^32`.
pub open spec fn fib_pair(n: nat) -> (u32, u32)
    decreases n,
{
    if n == 0 {
        (0u32, 1u32)
    } else {
        let p = fib_pair((n - 1) as nat);
        (p.1, u32_specs::wrapping_add(p.0, p.1))
    }
}

/// Computes the Fibonacci pair at index `n`.
///
/// Both the state-transition program and the orchestrator's execute-mode
/// cross-check call this one function, so the two always agree.
pub fn fibonacci(n: u32) -> (r: (u32, u32))
    ensures
        r == fib_pair(n as nat),
{
    let mut a: u32 = 0;
    let mut b: u32 = 1;
    let mut i: u32 = 0;
    while i < n
        invariant
            i <= n,
            (a, b) == fib_pair(i as nat),
        decreases n - i,
    {
        let c = a.wrapping_add(b);
        a = b;
        b = c;
        i = i + 1;
    }
    (a, b)
}

} // verus!
