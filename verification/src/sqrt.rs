//! Integer square roots, rounded down.

use vstd::prelude::*;

verus! {

/// `r` is the square root of `n` rounded down: the one natural number whose
/// square does not exceed `n` while the square of its successor does.
pub open spec fn is_floor_sqrt(r: int, n: int) -> bool {
    0 <= r && r * r <= n < (r + 1) * (r + 1)
}

/// The square root of `n` rounded down; zero for a negative `n`.
pub open spec fn floor_sqrt(n: int) -> int {
    if n < 0 {
        0
    } else {
        choose|r: int| is_floor_sqrt(r, n)
    }
}

/// Every natural number has a rounded-down square root.
pub proof fn lemma_floor_sqrt_exists(n: int) -> (r: int)
    requires
        0 <= n,
    ensures
        is_floor_sqrt(r, n),
    decreases n,
{
    if n == 0 {
        0
    } else {
        let p = lemma_floor_sqrt_exists(n - 1);
        let q = p + 1;
        if q * q <= n {
            assert((q + 1) * (q + 1) > n) by (nonlinear_arith)
                requires
                    1 <= q,
                    n - 1 < q * q,
            ;
            q
        } else {
            p
        }
    }
}

/// A number has at most one rounded-down square root.
pub proof fn lemma_floor_sqrt_unique(r1: int, r2: int, n: int)
    requires
        is_floor_sqrt(r1, n),
        is_floor_sqrt(r2, n),
    ensures
        r1 == r2,
{
    if r1 < r2 {
        assert((r1 + 1) * (r1 + 1) <= r2 * r2) by (nonlinear_arith)
            requires
                0 <= r1,
                r1 + 1 <= r2,
        ;
    } else if r2 < r1 {
        assert((r2 + 1) * (r2 + 1) <= r1 * r1) by (nonlinear_arith)
            requires
                0 <= r2,
                r2 + 1 <= r1,
        ;
    }
}

/// Whatever satisfies `is_floor_sqrt` is the value of `floor_sqrt`.
pub proof fn lemma_floor_sqrt_is(r: int, n: int)
    requires
        is_floor_sqrt(r, n),
    ensures
        floor_sqrt(n) == r,
{
    assert(0 <= r * r) by (nonlinear_arith);
    let witness = lemma_floor_sqrt_exists(n);
    lemma_floor_sqrt_unique(floor_sqrt(n), r, n);
}

/// `floor_sqrt` of a natural number is its rounded-down square root.
pub proof fn lemma_floor_sqrt_properties(n: int)
    requires
        0 <= n,
    ensures
        is_floor_sqrt(floor_sqrt(n), n),
{
    let witness = lemma_floor_sqrt_exists(n);
}

/// A larger number has no smaller root.
pub proof fn lemma_floor_sqrt_monotonic(m: int, n: int)
    requires
        m <= n,
    ensures
        floor_sqrt(m) <= floor_sqrt(n),
{
    if m < 0 {
        if n >= 0 {
            lemma_floor_sqrt_properties(n);
        }
    } else {
        lemma_floor_sqrt_properties(m);
        lemma_floor_sqrt_properties(n);
        let a = floor_sqrt(m);
        let b = floor_sqrt(n);
        if b < a {
            assert((b + 1) * (b + 1) <= a * a) by (nonlinear_arith)
                requires
                    0 <= b,
                    b + 1 <= a,
            ;
        }
    }
}

/// Computes the square root of `n`, rounded down, by bisection.
pub fn floor_sqrt_u128(n: u128) -> (r: u64)
    ensures
        r == floor_sqrt(n as int),
        is_floor_sqrt(r as int, n as int),
{
    let mut lo: u128 = 0;
    let mut hi: u128 = 0x1_0000_0000_0000_0000;
    assert(0x1_0000_0000_0000_0000int * 0x1_0000_0000_0000_0000int > n) by (nonlinear_arith)
        requires
            n <= 0xffff_ffff_ffff_ffff_ffff_ffff_ffff_ffff,
    ;
    while hi - lo > 1
        invariant
            lo < hi <= 0x1_0000_0000_0000_0000,
            lo * lo <= n < hi * hi,
        decreases hi - lo,
    {
        let mid: u128 = lo + (hi - lo) / 2;
        assert(mid * mid <= 0xffff_ffff_ffff_ffff_ffff_ffff_ffff_ffff) by (nonlinear_arith)
            requires
                mid <= 0xffff_ffff_ffff_ffff,
        ;
        if mid * mid <= n {
            lo = mid;
        } else {
            hi = mid;
        }
    }
    proof {
        lemma_floor_sqrt_is(lo as int, n as int);
    }
    lo as u64
}

} // verus!
