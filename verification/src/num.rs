//! Integer arithmetic helpers: a verified floor square root and clamping.

use vstd::prelude::*;

verus! {

/// Floor of the square root of `n`, defined by recursion on `n`.
pub open spec fn sqrt_floor(n: nat) -> nat
    decreases n,
{
    if n == 0 {
        0
    } else {
        let p = sqrt_floor((n - 1) as nat);
        if (p + 1) * (p + 1) <= n {
            p + 1
        } else {
            p
        }
    }
}

/// `r` is the floor of the square root of `n`.
pub open spec fn is_sqrt_floor(n: int, r: int) -> bool {
    0 <= r && r * r <= n && n < (r + 1) * (r + 1)
}

/// `sqrt_floor` satisfies the defining property of a floor square root.
pub proof fn lemma_sqrt_floor_is_sqrt(n: nat)
    ensures
        is_sqrt_floor(n as int, sqrt_floor(n) as int),
    decreases n,
{
    if n == 0 {
    } else {
        lemma_sqrt_floor_is_sqrt((n - 1) as nat);
        let p = sqrt_floor((n - 1) as nat) as int;
        if (p + 1) * (p + 1) <= n {
            assert(n <= (p + 1) * (p + 1));
            assert(n < (p + 2) * (p + 2)) by (nonlinear_arith)
                requires n <= (p + 1) * (p + 1) && 0 <= p;
        }
    }
}

/// The floor square root is unique.
pub proof fn lemma_sqrt_floor_unique(n: int, a: int, b: int)
    requires
        is_sqrt_floor(n, a),
        is_sqrt_floor(n, b),
    ensures
        a == b,
{
    assert(a <= b) by (nonlinear_arith)
        requires 0 <= a && 0 <= b && a * a <= n && n < (b + 1) * (b + 1);
    assert(b <= a) by (nonlinear_arith)
        requires 0 <= a && 0 <= b && b * b <= n && n < (a + 1) * (a + 1);
}

/// Any `m` whose square is at most `n` is at most the floor square root of `n`.
pub proof fn lemma_sqrt_floor_lower(n: int, r: int, m: int)
    requires
        is_sqrt_floor(n, r),
        0 <= m,
        m * m <= n,
    ensures
        m <= r,
{
    assert(m <= r) by (nonlinear_arith)
        requires 0 <= m && 0 <= r && m * m <= n && n < (r + 1) * (r + 1);
}

/// The floor square root of `n` is at most `c` whenever `n <= c * c`.
pub proof fn lemma_sqrt_floor_upper(n: int, r: int, c: int)
    requires
        is_sqrt_floor(n, r),
        0 <= c,
        n <= c * c,
    ensures
        r <= c,
{
    assert(r <= c) by (nonlinear_arith)
        requires 0 <= r && 0 <= c && r * r <= n && n <= c * c;
}

/// Binary search for the floor square root of `n`.
pub fn isqrt(n: u128) -> (r: u64)
    ensures
        r as nat == sqrt_floor(n as nat),
        is_sqrt_floor(n as int, r as int),
{
    let mut lo: u128 = 0;
    let mut hi: u128 = 0x1_0000_0000_0000_0000;
    assert((n as int) < (hi as int) * (hi as int)) by (nonlinear_arith)
        requires hi == 0x1_0000_0000_0000_0000u128 && n <= u128::MAX;
    while lo + 1 < hi
        invariant
            lo < hi <= 0x1_0000_0000_0000_0000,
            (lo as int) * (lo as int) <= n as int,
            (n as int) < (hi as int) * (hi as int),
        decreases hi - lo,
    {
        let mid = lo + (hi - lo) / 2;
        assert(lo < mid < hi);
        assert((mid as int) * (mid as int) <= (u128::MAX) as int) by (nonlinear_arith)
            requires mid < 0x1_0000_0000_0000_0000u128;
        if mid * mid <= n {
            lo = mid;
        } else {
            hi = mid;
        }
    }
    assert(is_sqrt_floor(n as int, lo as int));
    proof {
        lemma_sqrt_floor_is_sqrt(n as nat);
        lemma_sqrt_floor_unique(n as int, lo as int, sqrt_floor(n as nat) as int);
    }
    lo as u64
}

/// `v` forced into the interval `[lo, hi]`.
pub open spec fn clamp_spec(v: int, lo: int, hi: int) -> int {
    if v < lo {
        lo
    } else if v > hi {
        hi
    } else {
        v
    }
}

/// Clamp a wide intermediate value back into an `i64` interval.
pub fn clamp_i128(v: i128, lo: i64, hi: i64) -> (r: i64)
    requires
        lo <= hi,
    ensures
        r as int == clamp_spec(v as int, lo as int, hi as int),
{
    if v < lo as i128 {
        lo
    } else if v > hi as i128 {
        hi
    } else {
        v as i64
    }
}

/// Absolute value.
pub open spec fn abs_int(v: int) -> int {
    if v < 0 { -v } else { v }
}

} // verus!
