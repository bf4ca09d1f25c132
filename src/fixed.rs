//! Q16.16 fixed-point scalars.
//!
//! A scalar is an `i32` whose value is `raw / 65536`. Products and quotients
//! round toward zero, so that negation commutes with them, and every operation
//! is an exact function of its integer arguments: results are reproducible bit
//! for bit.
use vstd::prelude::*;

verus! {

/// The raw value of 1.0.
pub const ONE: i32 = 65536;

/// The raw value of 0.5.
pub const HALF: i32 = 32768;

/// Whether an integer is representable as a raw scalar.
pub open spec fn in_range(v: int) -> bool {
    i32::MIN <= v <= i32::MAX
}

/// Integer division rounding toward zero, for a positive divisor.
pub open spec fn tdiv(a: int, b: int) -> int {
    if a >= 0 {
        a / b
    } else {
        -((-a) / b)
    }
}

/// Division by 1.0, the rescaling step of a product.
pub open spec fn unscale(v: int) -> int {
    tdiv(v, 65536)
}

/// The fixed-point product of two raw scalars.
pub open spec fn fixed_mul(a: int, b: int) -> int {
    unscale(a * b)
}

/// The fixed-point quotient of two raw scalars, for a positive divisor.
pub open spec fn fixed_div(a: int, b: int) -> int {
    tdiv(a * 65536, b)
}

/// `v` limited to the interval `[lo, hi]`.
pub open spec fn clamp(v: int, lo: int, hi: int) -> int {
    if v < lo {
        lo
    } else if v > hi {
        hi
    } else {
        v
    }
}

/// `v` limited to the representable range.
pub open spec fn saturate(v: int) -> int {
    clamp(v, i32::MIN as int, i32::MAX as int)
}

/// Bounds of the product of two `i32` values, and of its fixed-point rescaling.
pub proof fn lemma_mul_i32_bound(a: i32, b: i32)
    ensures
        -0x4000_0000_0000_0000 <= a * b <= 0x4000_0000_0000_0000,
        -0x8000_0000_0000 <= fixed_mul(a as int, b as int) <= 0x8000_0000_0000,
{
    assert(-0x4000_0000_0000_0000 <= a * b <= 0x4000_0000_0000_0000) by (nonlinear_arith);
}

/// Half of a scalar lies within half the range.
pub proof fn lemma_half_bound(w: i32)
    ensures
        -32768 * 65536 <= fixed_mul(w as int, 32768) <= 32768 * 65536,
{
    assert(-0x4000_0000_0000 <= w * 32768 <= 0x4000_0000_0000) by (nonlinear_arith);
}

/// Division of an `i64` by 1.0.
pub fn unscale_i64(v: i64) -> (r: i64)
    requires
        v > i64::MIN,
    ensures
        r == unscale(v as int),
{
    if v >= 0 {
        v / 65536
    } else {
        -((-v) / 65536)
    }
}

/// The product of two scalars, kept at full width.
pub fn fmul_wide(a: i32, b: i32) -> (r: i64)
    ensures
        r == fixed_mul(a as int, b as int),
        -0x8000_0000_0000 <= r <= 0x8000_0000_0000,
{
    proof {
        lemma_mul_i32_bound(a, b);
    }
    unscale_i64((a as i64) * (b as i64))
}

/// The product of two scalars.
pub fn fmul(a: i32, b: i32) -> (r: i32)
    requires
        in_range(fixed_mul(a as int, b as int)),
    ensures
        r == fixed_mul(a as int, b as int),
{
    fmul_wide(a, b) as i32
}

/// The quotient of two scalars, for a positive divisor.
pub fn fdiv(a: i32, b: i64) -> (r: i32)
    requires
        b > 0,
        b <= 0x7fff_ffff_ffff,
        in_range(fixed_div(a as int, b as int)),
    ensures
        r == fixed_div(a as int, b as int),
{
    let n: i64 = (a as i64) * 65536;
    let q: i64 = if n >= 0 {
        n / b
    } else {
        -((-n) / b)
    };
    q as i32
}

/// Division of an `i128` by 1.0.
pub fn unscale_i128(v: i128) -> (r: i128)
    requires
        v > i128::MIN,
    ensures
        r == unscale(v as int),
{
    if v >= 0 {
        v / 65536
    } else {
        -((-v) / 65536)
    }
}

/// `v` limited to the representable range.
pub fn saturate_i128(v: i128) -> (r: i32)
    ensures
        r == saturate(v as int),
{
    if v < i32::MIN as i128 {
        i32::MIN
    } else if v > i32::MAX as i128 {
        i32::MAX
    } else {
        v as i32
    }
}

/// `r` is the integer square root of `n`.
pub open spec fn is_sqrt(n: int, r: int) -> bool {
    0 <= r && r * r <= n < (r + 1) * (r + 1)
}

/// The integer square root of a non-negative integer.
pub open spec fn isqrt(n: int) -> int {
    choose|r: int| is_sqrt(n, r)
}

/// An integer has at most one integer square root.
pub proof fn lemma_sqrt_unique(n: int, r1: int, r2: int)
    requires
        is_sqrt(n, r1),
        is_sqrt(n, r2),
    ensures
        r1 == r2,
{
    if r1 < r2 {
        assert((r1 + 1) * (r1 + 1) <= r2 * r2) by (nonlinear_arith)
            requires
                0 <= r1 + 1 <= r2,
        ;
    } else if r2 < r1 {
        assert((r2 + 1) * (r2 + 1) <= r1 * r1) by (nonlinear_arith)
            requires
                0 <= r2 + 1 <= r1,
        ;
    }
}

/// Every non-negative integer has an integer square root.
pub proof fn lemma_sqrt_exists(n: int)
    requires
        n >= 0,
    ensures
        is_sqrt(n, isqrt(n)),
    decreases n,
{
    if n == 0 {
        assert(is_sqrt(0, 0));
    } else {
        lemma_sqrt_exists(n - 1);
        let r = isqrt(n - 1);
        if (r + 1) * (r + 1) <= n {
            assert(n < (r + 2) * (r + 2)) by (nonlinear_arith)
                requires
                    n - 1 < (r + 1) * (r + 1),
                    r >= 0,
            ;
            assert(is_sqrt(n, r + 1));
        } else {
            assert(is_sqrt(n, r));
        }
    }
}

/// A square root found for `n` is the one `isqrt` names.
pub proof fn lemma_isqrt_is(n: int, r: int)
    requires
        is_sqrt(n, r),
    ensures
        isqrt(n) == r,
{
    assert(is_sqrt(n, isqrt(n)));
    lemma_sqrt_unique(n, r, isqrt(n));
}

/// A value whose square is at most `n` is at most the square root of `n`.
pub proof fn lemma_le_sqrt(n: int, r: int, x: int)
    requires
        is_sqrt(n, r),
        x * x <= n,
    ensures
        -r <= x <= r,
{
    if x > r {
        assert((r + 1) * (r + 1) <= x * x) by (nonlinear_arith)
            requires
                0 <= r + 1 <= x,
        ;
    } else if x < -r {
        assert((r + 1) * (r + 1) <= x * x) by (nonlinear_arith)
            requires
                0 <= r + 1 <= -x,
        ;
    }
}

/// The integer square root, by bisection.
pub fn isqrt_u64(n: u64) -> (r: u64)
    ensures
        is_sqrt(n as int, r as int),
        r as int == isqrt(n as int),
        r <= 0xffff_ffff,
{
    let mut lo: u64 = 0;
    let mut hi: u64 = 0x1_0000_0000;
    assert(n < hi * hi);
    while hi - lo > 1
        invariant
            lo < hi <= 0x1_0000_0000,
            lo * lo <= n,
            n < hi * hi,
        decreases hi - lo,
    {
        let mid: u64 = lo + (hi - lo) / 2;
        assert(mid * mid < 0x1_0000_0000 * 0x1_0000_0000) by (nonlinear_arith)
            requires
                mid < 0x1_0000_0000,
        ;
        if mid * mid <= n {
            lo = mid;
        } else {
            hi = mid;
        }
    }
    assert(hi == lo + 1);
    proof {
        lemma_isqrt_is(n as int, lo as int);
    }
    lo
}

} // verus!
