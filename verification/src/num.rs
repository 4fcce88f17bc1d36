//! Integer square root.

use vstd::prelude::*;

verus! {

/// Floor of the square root, by monotone construction: the root grows by
/// one exactly when the next square fits.
pub open spec fn sqrt_floor(n: int) -> int
    decreases n,
{
    if n <= 0 {
        0
    } else {
        let r = sqrt_floor(n - 1);
        if (r + 1) * (r + 1) <= n {
            r + 1
        } else {
            r
        }
    }
}

/// `sqrt_floor(n)` is a nonnegative root with remainder below the next
/// square.
pub proof fn lemma_sqrt_floor_bounds(n: int)
    requires
        n >= 0,
    ensures
        0 <= sqrt_floor(n),
        sqrt_floor(n) * sqrt_floor(n) <= n,
        n < (sqrt_floor(n) + 1) * (sqrt_floor(n) + 1),
    decreases n,
{
    if n == 0 {
    } else {
        lemma_sqrt_floor_bounds(n - 1);
        let r = sqrt_floor(n - 1);
        if (r + 1) * (r + 1) <= n {
            assert((r + 1) * (r + 1) < (r + 2) * (r + 2)) by (nonlinear_arith)
                requires
                    r >= 0,
            ;
        }
    }
}

/// Any nonnegative root with remainder below the next square is the floor
/// square root.
pub proof fn lemma_sqrt_floor_unique(n: int, r: int)
    requires
        n >= 0,
        r >= 0,
        r * r <= n,
        n < (r + 1) * (r + 1),
    ensures
        r == sqrt_floor(n),
{
    lemma_sqrt_floor_bounds(n);
    let s = sqrt_floor(n);
    if r < s {
        assert((r + 1) * (r + 1) <= s * s) by (nonlinear_arith)
            requires
                0 <= r + 1 <= s,
        ;
    } else if s < r {
        assert((s + 1) * (s + 1) <= r * r) by (nonlinear_arith)
            requires
                0 <= s + 1 <= r,
        ;
    }
}

/// Floor of the square root of `n`, by binary search.
pub fn isqrt64(n: u64) -> (r: u64)
    ensures
        r == sqrt_floor(n as int),
        r * r <= n < (r + 1) * (r + 1),
        r <= 0xFFFF_FFFF,
{
    let mut lo: u64 = 0;
    let mut hi: u64 = 0x1_0000_0000;
    while lo + 1 < hi
        invariant
            lo < hi <= 0x1_0000_0000,
            lo * lo <= n,
            (n as int) < hi * hi,
        decreases hi - lo,
    {
        let mid = lo + (hi - lo) / 2;
        proof {
            vstd::arithmetic::mul::lemma_mul_upper_bound(
                mid as int,
                0xFFFF_FFFF,
                mid as int,
                0xFFFF_FFFF,
            );
        }
        if mid * mid <= n {
            lo = mid;
        } else {
            hi = mid;
        }
    }
    proof {
        lemma_sqrt_floor_unique(n as int, lo as int);
    }
    lo
}

} // verus!
