//! Powers of two, as used to size buffers.

use vstd::prelude::*;

verus! {

/// `n` is a power of two (1, 2, 4, ...).
pub open spec fn is_power_of_two(n: nat) -> bool
    decreases n,
{
    if n == 1 {
        true
    } else if n == 0 || n % 2 == 1 {
        false
    } else {
        is_power_of_two(n / 2)
    }
}

/// `p` is the smallest power of two that is at least `n`.
pub open spec fn is_next_power_of_two(n: nat, p: nat) -> bool {
    &&& is_power_of_two(p)
    &&& n <= p
    &&& (p == 1 || p / 2 < n)
}

/// The largest argument whose next power of two fits in a `usize`.
pub open spec fn pow2_arg_limit() -> nat {
    (usize::MAX / 2 + 1) as nat
}

/// A power of two is 1 or twice a smaller power of two.
pub proof fn lemma_double_is_power_of_two(p: nat)
    requires
        is_power_of_two(p),
    ensures
        is_power_of_two(2 * p),
        p >= 1,
{
    assert((2 * p) / 2 == p);
    assert((2 * p) % 2 == 0);
}

/// The smallest power of two that is at least `n` (1 for 0).
pub fn next_power_of_two(n: usize) -> (p: usize)
    requires
        n <= pow2_arg_limit(),
    ensures
        is_next_power_of_two(n as nat, p as nat),
{
    let mut p: usize = 1;
    while p < n
        invariant
            n <= pow2_arg_limit(),
            is_power_of_two(p as nat),
            p >= 1,
            p == 1 || p / 2 < n,
            p <= 2 * n || p == 1,
        decreases 2 * n - p,
    {
        proof {
            lemma_double_is_power_of_two(p as nat);
        }
        p = p * 2;
    }
    p
}

/// Of two different powers of two, the larger is at least twice the smaller.
pub proof fn lemma_powers_of_two_apart(p: nat, q: nat)
    requires
        is_power_of_two(p),
        is_power_of_two(q),
        p < q,
    ensures
        2 * p <= q,
    decreases p,
{
    if p != 1 {
        assert(q != 1);
        lemma_powers_of_two_apart(p / 2, q / 2);
    }
}

/// A power of two is its own next power of two, and the next power of two is unique.
pub proof fn lemma_next_power_of_two_unique(n: nat, p: nat, q: nat)
    requires
        is_next_power_of_two(n, p),
        is_next_power_of_two(n, q),
    ensures
        p == q,
{
    if p < q {
        lemma_powers_of_two_apart(p, q);
    } else if q < p {
        lemma_powers_of_two_apart(q, p);
    }
}

/// A power of two is its own next power of two.
pub proof fn lemma_next_power_of_two_of_power(p: nat)
    requires
        is_power_of_two(p),
    ensures
        is_next_power_of_two(p, p),
{
    lemma_double_is_power_of_two(p);
}

/// The executable form of `pow2_arg_limit`.
pub fn pow2_arg_limit_exec() -> (r: usize)
    ensures
        r == pow2_arg_limit(),
{
    usize::MAX / 2 + 1
}

} // verus!
