//! Arc geometry over integer micrometers.
//!
//! A radius is the distance between two lattice points, rounded to the
//! nearest micrometer (halves rounding up).  The rounding of
//! `sqrt(dx^2 + dy^2)` is computed exactly in integers: `r` is the
//! rounded root of `n` exactly when `r^2 - r < n <= r^2 + r` (and `r = 0`
//! for `n = 0`), since those bounds are `(r -+ 1/2)^2` shifted off the
//! quarter.

use vstd::prelude::*;

verus! {

/// Whether `r` is `sqrt(n)` rounded to the nearest integer, halves up.
pub open spec fn spec_is_rounded_sqrt(n: int, r: int) -> bool {
    ||| (r == 0 && n == 0)
    ||| (r >= 1 && r * r - r < n <= r * r + r)
}

/// The rounded square root of a non-negative integer.
pub open spec fn spec_rsqrt(n: int) -> int {
    choose|r: int| spec_is_rounded_sqrt(n, r)
}

/// At most one integer is the rounded root of `n`.
pub proof fn lemma_rounded_sqrt_unique(n: int, r1: int, r2: int)
    requires
        spec_is_rounded_sqrt(n, r1),
        spec_is_rounded_sqrt(n, r2),
    ensures
        r1 == r2,
{
    assert(!(r1 < r2 || r2 < r1)) by (nonlinear_arith)
        requires
            spec_is_rounded_sqrt(n, r1),
            spec_is_rounded_sqrt(n, r2),
    ;
}

/// A witness pins the rounded root down.
pub proof fn lemma_rsqrt_is(n: int, r: int)
    requires
        spec_is_rounded_sqrt(n, r),
    ensures
        spec_rsqrt(n) == r,
{
    let w = choose|x: int| spec_is_rounded_sqrt(n, x);
    assert(spec_is_rounded_sqrt(n, w));
    lemma_rounded_sqrt_unique(n, w, r);
}

/// The squared distance between two offsets.
pub fn dist_squared(dx: i64, dy: i64) -> (n: u128)
    ensures
        n == (dx as int) * (dx as int) + (dy as int) * (dy as int),
        n <= 0x8000_0000_0000_0000_0000_0000_0000_0000u128,
{
    let ax: u128 = if dx >= 0 {
        dx as u128
    } else {
        (-(dx as i128)) as u128
    };
    let ay: u128 = if dy >= 0 {
        dy as u128
    } else {
        (-(dy as i128)) as u128
    };
    assert(ax * ax == dx * dx && ax * ax <= 0x4000_0000_0000_0000_0000_0000_0000_0000)
        by (nonlinear_arith)
        requires
            ax == (if dx as int >= 0 {
                dx as int
            } else {
                -(dx as int)
            }),
            ax <= 0x8000_0000_0000_0000,
    ;
    assert(ay * ay == dy * dy && ay * ay <= 0x4000_0000_0000_0000_0000_0000_0000_0000)
        by (nonlinear_arith)
        requires
            ay == (if dy as int >= 0 {
                dy as int
            } else {
                -(dy as int)
            }),
            ay <= 0x8000_0000_0000_0000,
    ;
    ax * ax + ay * ay
}

/// The square root of `n`, rounded to the nearest integer.
pub fn rounded_sqrt(n: u128) -> (r: u64)
    requires
        n <= 0x8000_0000_0000_0000_0000_0000_0000_0000u128,
    ensures
        spec_is_rounded_sqrt(n as int, r as int),
        spec_rsqrt(n as int) == r as int,
{
    let mut lo: u128 = 0;
    let mut hi: u128 = 0x1_0000_0000_0000_0000;
    assert((hi as int) * (hi as int) > n) by (nonlinear_arith)
        requires
            hi == 0x1_0000_0000_0000_0000u128,
            n <= 0x8000_0000_0000_0000_0000_0000_0000_0000u128,
    ;
    while lo + 1 < hi
        invariant
            lo < hi <= 0x1_0000_0000_0000_0000u128,
            (lo as int) * (lo as int) <= n,
            n < (hi as int) * (hi as int),
        decreases hi - lo,
    {
        let mid = lo + (hi - lo) / 2;
        assert(lo < mid < hi);
        assert((mid as int) * (mid as int) <= 0xffff_ffff_ffff_ffff_ffff_ffff_ffff_ffff)
            by (nonlinear_arith)
            requires
                mid < 0x1_0000_0000_0000_0000u128,
        ;
        let sq = mid * mid;
        if sq <= n {
            lo = mid;
        } else {
            hi = mid;
        }
    }
    let s = lo;
    assert(n <= (s as int) * (s as int) + 2 * (s as int)) by (nonlinear_arith)
        requires
            n < ((s + 1) as int) * ((s + 1) as int),
            s < 0x1_0000_0000_0000_0000u128,
    ;
    let r128: u128 = if n <= s * s + s {
        s
    } else {
        s + 1
    };
    proof {
        if n > s * s + s {
            assert(spec_is_rounded_sqrt(n as int, (s + 1) as int)) by (nonlinear_arith)
                requires
                    (s as int) * (s as int) <= n,
                    n <= (s as int) * (s as int) + 2 * (s as int),
                    n > (s as int) * (s as int) + s,
            ;
        } else {
            if s == 0 {
                assert(n == 0);
            }
        }
        lemma_rsqrt_is(n as int, r128 as int);
        assert(r128 < 0x1_0000_0000_0000_0000u128);
    }
    r128 as u64
}

} // verus!
