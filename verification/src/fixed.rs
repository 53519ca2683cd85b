//! Fixed-point scalars.
//!
//! A scalar is an `i32` that counts millionths: the raw value `v` stands for
//! the rational `v / ONE`. Every operation computes its exact result in a
//! wider type, rounds a quotient down, and saturates at the ends of `i32`.

use vstd::prelude::*;

verus! {

/// The raw value of the scalar one.
pub const ONE: i32 = 1_000_000;

/// The nearest `i32` to `v`.
pub open spec fn clamp(v: int) -> int {
    if v < i32::MIN as int {
        i32::MIN as int
    } else if v > i32::MAX as int {
        i32::MAX as int
    } else {
        v
    }
}

/// A product of two raw values, brought back to one factor of `ONE`.
pub open spec fn rescale(v: int) -> int {
    clamp(v / (ONE as int))
}

/// The largest `r` with `r * r <= n`, for `n >= 0`.
pub open spec fn is_root(n: int, r: int) -> bool {
    0 <= r && r * r <= n && n < (r + 1) * (r + 1)
}

/// The integer square root of `n`, rounded down.
pub open spec fn root(n: int) -> int {
    choose|r: int| is_root(n, r)
}

/// A product stays within the product of its factors' bounds.
pub proof fn lemma_product_bound(a: int, b: int, m: int, n: int)
    requires
        -m <= a <= m,
        -n <= b <= n,
    ensures
        -(m * n) <= a * b <= m * n,
{
    assert(-(m * n) <= a * b <= m * n) by (nonlinear_arith)
        requires
            -m <= a <= m,
            -n <= b <= n,
    ;
}

/// Squaring is monotone on the non-negative integers.
pub proof fn lemma_square_monotone(a: int, b: int)
    requires
        0 <= a <= b,
    ensures
        a * a <= b * b,
{
    assert(a * a <= b * b) by (nonlinear_arith)
        requires
            0 <= a <= b,
    ;
}

/// Every non-negative integer has a rounded-down square root.
pub proof fn lemma_root_exists(n: nat)
    ensures
        is_root(n as int, root(n as int)),
    decreases n,
{
    if n == 0 {
        assert(is_root(0, 0)) by (nonlinear_arith);
    } else {
        lemma_root_exists((n - 1) as nat);
        let r = root(n - 1);
        if (r + 1) * (r + 1) <= n {
            assert(n < (r + 2) * (r + 2)) by (nonlinear_arith)
                requires
                    0 <= r,
                    n - 1 < (r + 1) * (r + 1),
            ;
            assert(is_root(n as int, r + 1));
        } else {
            assert(is_root(n as int, r));
        }
    }
}

/// At most one integer is the rounded-down square root of `n`.
pub proof fn lemma_root_unique(n: int, r: int)
    requires
        is_root(n, r),
    ensures
        root(n) == r,
{
    let s = root(n);
    assert(is_root(n, s));
    if s < r {
        lemma_square_monotone(s + 1, r);
    } else if r < s {
        lemma_square_monotone(r + 1, s);
    }
}

/// Saturates a wide value to `i32`.
pub fn narrow(v: i128) -> (r: i32)
    ensures
        r as int == clamp(v as int),
{
    if v < -2147483648i128 {
        i32::MIN
    } else if v > 2147483647i128 {
        i32::MAX
    } else {
        v as i32
    }
}

/// The exact product of two 64-bit values.
pub fn product(a: i64, b: i64) -> (p: i128)
    ensures
        p as int == (a as int) * (b as int),
{
    proof {
        lemma_product_bound(a as int, b as int, 0x8000_0000_0000_0000, 0x8000_0000_0000_0000);
    }
    (a as i128) * (b as i128)
}

/// Division rounded toward negative infinity.
pub fn floor_div(a: i128, b: i128) -> (q: i128)
    requires
        b > 0,
    ensures
        q as int == (a as int) / (b as int),
{
    if a >= 0 {
        a / b
    } else {
        let n: i128 = -(a + 1);
        let q: i128 = n / b;
        proof {
            assert((a as int) / (b as int) == -(((-(a as int) - 1) / (b as int)) + 1)) by (nonlinear_arith)
                requires
                    b > 0,
                    a < 0,
            ;
        }
        -q - 1
    }
}

/// The exact product of two scalars' raw values.
pub fn product32(a: i32, b: i32) -> (p: i128)
    ensures
        p as int == (a as int) * (b as int),
        -0x4000_0000_0000_0000 <= p <= 0x4000_0000_0000_0000,
{
    proof {
        lemma_product_bound(a as int, b as int, 0x8000_0000, 0x8000_0000);
    }
    (a as i128) * (b as i128)
}

/// The integer square root of `n`, rounded down.
pub fn isqrt(n: i128) -> (r: i128)
    requires
        n >= 0,
    ensures
        is_root(n as int, r as int),
        r as int == root(n as int),
        r <= 13043817825332782212,
{
    let mut lo: i128 = 0;
    let mut hi: i128 = 13043817825332782213;
    proof {
        assert(0 * 0 == 0) by (nonlinear_arith);
    }
    while hi - lo > 1
        invariant
            0 <= lo < hi <= 13043817825332782213,
            lo * lo <= n,
            n < hi * hi,
        decreases hi - lo,
    {
        let mid: i128 = lo + (hi - lo) / 2;
        proof {
            lemma_square_monotone(mid as int, 13043817825332782212);
        }
        if mid * mid <= n {
            lo = mid;
        } else {
            hi = mid;
        }
    }
    proof {
        lemma_root_unique(n as int, lo as int);
    }
    lo
}

} // verus!
