//! Improved Perlin gradient noise over a fixed permutation table.
//!
//! There is no seed: every instance holds the same table, so every call with
//! the same coordinates gives the same value.
use vstd::prelude::*;
use crate::fixed::{fixed_mul, fmul, ONE};

verus! {

/// The canonical permutation of `0..256`.
#[verifier::opaque]
pub open spec fn base_permutation() -> Seq<u8> {
    seq![
        151, 160, 137, 91, 90, 15, 131, 13, 201, 95, 96, 53, 194, 233, 7, 225,
        140, 36, 103, 30, 69, 142, 8, 99, 37, 240, 21, 10, 23, 190, 6, 148,
        247, 120, 234, 75, 0, 26, 197, 62, 94, 252, 219, 203, 117, 35, 11, 32,
        57, 177, 33, 88, 237, 149, 56, 87, 174, 20, 125, 136, 171, 168, 68, 175,
        74, 165, 71, 134, 139, 48, 27, 166, 77, 146, 158, 231, 83, 111, 229, 122,
        60, 211, 133, 230, 220, 105, 92, 41, 55, 46, 245, 40, 244, 102, 143, 54,
        65, 25, 63, 161, 1, 216, 80, 73, 209, 76, 132, 187, 208, 89, 18, 169,
        200, 196, 135, 130, 116, 188, 159, 86, 164, 100, 109, 198, 173, 186, 3, 64,
        52, 217, 226, 250, 124, 123, 5, 202, 38, 147, 118, 126, 255, 82, 85, 212,
        207, 206, 59, 227, 47, 16, 58, 17, 182, 189, 28, 42, 223, 183, 170, 213,
        119, 248, 152, 2, 44, 154, 163, 70, 221, 153, 101, 155, 167, 43, 172, 9,
        129, 22, 39, 253, 19, 98, 108, 110, 79, 113, 224, 232, 178, 185, 112, 104,
        218, 246, 97, 228, 251, 34, 242, 193, 238, 210, 144, 12, 191, 179, 162, 241,
        81, 51, 145, 235, 249, 14, 239, 107, 49, 192, 214, 31, 181, 199, 106, 157,
        184, 84, 204, 176, 115, 121, 50, 45, 127, 4, 150, 254, 138, 236, 205, 93,
        222, 114, 67, 29, 24, 72, 243, 141, 128, 195, 78, 66, 215, 61, 156, 180,
    ]
}

/// The table the noise reads: the permutation twice over, so that an index
/// up to 511 needs no wrapping.
pub open spec fn permutation_table() -> Seq<u8> {
    base_permutation() + base_permutation()
}

pub proof fn lemma_table_len()
    ensures
        base_permutation().len() == 256,
        permutation_table().len() == 512,
{
    reveal(base_permutation);
}

/// The table entry at `i`.
pub open spec fn perm(i: int) -> int {
    permutation_table()[i] as int
}

/// The quintic smoothing curve `6t⁵ - 15t⁴ + 10t³`.
pub open spec fn fade_spec(t: int) -> int {
    fixed_mul(fixed_mul(fixed_mul(t, t), t), fixed_mul(t, t * 6 - 15 * 65536) + 10 * 65536)
}

/// Linear interpolation from `a` (at 0) to `b` (at 1).
pub open spec fn lerp_spec(t: int, a: int, b: int) -> int {
    a + fixed_mul(t, b - a)
}

/// The dot product of the offset `(x, y, z)` with one of twelve gradient
/// directions, chosen by the low four bits of `hash`.
pub open spec fn grad_spec(hash: int, x: int, y: int, z: int) -> int {
    let h = hash % 16;
    let u = if h < 8 {
        x
    } else {
        y
    };
    let v = if h < 4 {
        y
    } else if h == 12 || h == 14 {
        x
    } else {
        z
    };
    (if h % 2 == 0 {
        u
    } else {
        -u
    }) + (if (h / 2) % 2 == 0 {
        v
    } else {
        -v
    })
}

/// The lattice cell of a coordinate, wrapped to the table's period.
pub open spec fn cell(x: int) -> int {
    (x / 65536) % 256
}

/// The offset of a coordinate within its lattice cell, in `[0, 1)`.
pub open spec fn offset(x: int) -> int {
    x % 65536
}

/// The noise value at `(x, y, z)`.
pub open spec fn noise_at(x: int, y: int, z: int) -> int {
    let (xc, yc, zc) = (cell(x), cell(y), cell(z));
    let (xf, yf, zf) = (offset(x), offset(y), offset(z));
    let (u, v, w) = (fade_spec(xf), fade_spec(yf), fade_spec(zf));
    let a = perm(xc) + yc;
    let aa = perm(a) + zc;
    let ab = perm(a + 1) + zc;
    let b = perm(xc + 1) + yc;
    let ba = perm(b) + zc;
    let bb = perm(b + 1) + zc;
    let one: int = 65536;
    lerp_spec(
        w,
        lerp_spec(
            v,
            lerp_spec(u, grad_spec(perm(aa), xf, yf, zf), grad_spec(perm(ba), xf - one, yf, zf)),
            lerp_spec(
                u,
                grad_spec(perm(ab), xf, yf - one, zf),
                grad_spec(perm(bb), xf - one, yf - one, zf),
            ),
        ),
        lerp_spec(
            v,
            lerp_spec(
                u,
                grad_spec(perm(aa + 1), xf, yf, zf - one),
                grad_spec(perm(ba + 1), xf - one, yf, zf - one),
            ),
            lerp_spec(
                u,
                grad_spec(perm(ab + 1), xf, yf - one, zf - one),
                grad_spec(perm(bb + 1), xf - one, yf - one, zf - one),
            ),
        ),
    )
}

/// `6t⁵ - 15t⁴ + 10t³ <= 1` on `[0, 1]`, scaled by `n`: `1 - fade(s)` is `(1 - s)³ (6s² + 3s + 1)`.
proof fn lemma_fade_polynomial(t: int, n: int)
    requires
        0 <= t <= n,
    ensures
        6 * t * t * t * t * t - 15 * t * t * t * t * n + 10 * t * t * t * n * n <= n * n * n * n * n,
        6 * t * t - 15 * t * n + 10 * n * n >= n * n,
{
    let d = n - t;
    let (m50, m41, m32) = (t * t * t * t * t, t * t * t * t * d, t * t * t * d * d);
    let (m23, m14, m05) = (t * t * d * d * d, t * d * d * d * d, d * d * d * d * d);
    let lhs = 6 * t * t * t * t * t - 15 * t * t * t * t * n + 10 * t * t * t * n * n;
    assert(6 * t * t * t * t * t == 6 * m50) by (nonlinear_arith)
        requires
            m50 == t * t * t * t * t,
    ;
    assert(15 * t * t * t * t * n == 15 * m50 + 15 * m41) by (nonlinear_arith)
        requires
            n == t + d,
            m50 == t * t * t * t * t,
            m41 == t * t * t * t * d,
    ;
    assert(n * n == t * t + 2 * t * d + d * d) by (nonlinear_arith)
        requires
            n == t + d,
    ;
    assert(10 * t * t * t * n * n == 10 * m50 + 20 * m41 + 10 * m32) by (nonlinear_arith)
        requires
            n * n == t * t + 2 * t * d + d * d,
            m50 == t * t * t * t * t,
            m41 == t * t * t * t * d,
            m32 == t * t * t * d * d,
    ;
    let (q40, q31, q22) = (t * t * t * t, t * t * t * d, t * t * d * d);
    let (q13, q04) = (t * d * d * d, d * d * d * d);
    let (c30, c21, c12, c03) = (t * t * t, t * t * d, t * d * d, d * d * d);
    assert(n * n * n == c30 + 3 * c21 + 3 * c12 + c03) by (nonlinear_arith)
        requires
            n == t + d,
            c30 == t * t * t,
            c21 == t * t * d,
            c12 == t * d * d,
            c03 == d * d * d,
    ;
    let n4 = n * n * n * n;
    assert(n4 == (n * n * n) * t + (n * n * n) * d) by (nonlinear_arith)
        requires
            n4 == n * n * n * n,
            n == t + d,
    ;
    assert((n * n * n) * t == c30 * t + 3 * (c21 * t) + 3 * (c12 * t) + c03 * t) by (
    nonlinear_arith)
        requires
            n * n * n == c30 + 3 * c21 + 3 * c12 + c03,
    ;
    assert((n * n * n) * d == c30 * d + 3 * (c21 * d) + 3 * (c12 * d) + c03 * d) by (
    nonlinear_arith)
        requires
            n * n * n == c30 + 3 * c21 + 3 * c12 + c03,
    ;
    assert(c30 * t == q40 && c21 * t == q31 && c12 * t == q22 && c03 * t == q13) by (nonlinear_arith)
        requires
            c30 == t * t * t,
            c21 == t * t * d,
            c12 == t * d * d,
            c03 == d * d * d,
            q40 == t * t * t * t,
            q31 == t * t * t * d,
            q22 == t * t * d * d,
            q13 == t * d * d * d,
    ;
    assert(c30 * d == q31 && c21 * d == q22 && c12 * d == q13 && c03 * d == q04) by (nonlinear_arith)
        requires
            c30 == t * t * t,
            c21 == t * t * d,
            c12 == t * d * d,
            c03 == d * d * d,
            q31 == t * t * t * d,
            q22 == t * t * d * d,
            q13 == t * d * d * d,
            q04 == d * d * d * d,
    ;
    assert(n4 == q40 + 4 * q31 + 6 * q22 + 4 * q13 + q04);
    assert(n4 * t == q40 * t + 4 * (q31 * t) + 6 * (q22 * t) + 4 * (q13 * t) + q04 * t) by (
    nonlinear_arith)
        requires
            n4 == q40 + 4 * q31 + 6 * q22 + 4 * q13 + q04,
    ;
    assert(n4 * d == q40 * d + 4 * (q31 * d) + 6 * (q22 * d) + 4 * (q13 * d) + q04 * d) by (
    nonlinear_arith)
        requires
            n4 == q40 + 4 * q31 + 6 * q22 + 4 * q13 + q04,
    ;
    assert(q40 * t == m50 && q31 * t == m41 && q22 * t == m32 && q13 * t == m23 && q04 * t == m14)
        by (nonlinear_arith)
        requires
            q40 == t * t * t * t,
            q31 == t * t * t * d,
            q22 == t * t * d * d,
            q13 == t * d * d * d,
            q04 == d * d * d * d,
            m50 == t * t * t * t * t,
            m41 == t * t * t * t * d,
            m32 == t * t * t * d * d,
            m23 == t * t * d * d * d,
            m14 == t * d * d * d * d,
    ;
    assert(q40 * d == m41 && q31 * d == m32 && q22 * d == m23 && q13 * d == m14 && q04 * d == m05)
        by (nonlinear_arith)
        requires
            q40 == t * t * t * t,
            q31 == t * t * t * d,
            q22 == t * t * d * d,
            q13 == t * d * d * d,
            q04 == d * d * d * d,
            m41 == t * t * t * t * d,
            m32 == t * t * t * d * d,
            m23 == t * t * d * d * d,
            m14 == t * d * d * d * d,
            m05 == d * d * d * d * d,
    ;
    assert(n * n * n * n * n == n4 * t + n4 * d) by (nonlinear_arith)
        requires
            n4 == n * n * n * n,
            n == t + d,
    ;
    assert(10 * m23 + 5 * m14 + m05 >= 0) by (nonlinear_arith)
        requires
            t >= 0,
            d >= 0,
            m23 == t * t * d * d * d,
            m14 == t * d * d * d * d,
            m05 == d * d * d * d * d,
    ;
    assert(6 * t * t - 15 * t * n + 10 * n * n - n * n == 3 * (n - t) * (3 * n - 2 * t)) by (
    nonlinear_arith);
    assert(3 * (n - t) * (3 * n - 2 * t) >= 0) by (nonlinear_arith)
        requires
            0 <= t <= n,
    ;
}

/// `6t⁵ - 15t⁴ + 10t³` stays within `[0, 1]` on `[0, 1)`.
pub proof fn lemma_fade_bounds(t: int)
    requires
        0 <= t < 65536,
    ensures
        0 <= fade_spec(t) <= 65536,
        0 <= fixed_mul(t, t) <= 65536,
        0 <= fixed_mul(fixed_mul(t, t), t) <= 65536,
        -15 * 65536 <= fixed_mul(t, t * 6 - 15 * 65536) <= 0,
{
    let n: int = 65536;
    let t2 = fixed_mul(t, t);
    let t3 = fixed_mul(t2, t);
    let k = t * 6 - 15 * n;
    let m = fixed_mul(t, k);
    let inner = m + 10 * n;
    lemma_fade_polynomial(t, n);
    // t2 = floor(t² / n)
    assert(0 <= t * t <= t * n) by (nonlinear_arith)
        requires
            0 <= t < n,
    ;
    vstd::arithmetic::div_mod::lemma_fundamental_div_mod(t * t, n);
    vstd::arithmetic::div_mod::lemma_mod_bound(t * t, n);
    assert(t2 * n <= t * t);
    assert(0 <= t2 <= t) by (nonlinear_arith)
        requires
            t2 * n <= t * t,
            t * t <= t * n,
            t2 * n + n > t * t,
            0 <= t < n,
    ;
    // t3 = floor(t2 · t / n)
    assert(0 <= t2 * t) by (nonlinear_arith)
        requires
            0 <= t2,
            0 <= t,
    ;
    vstd::arithmetic::div_mod::lemma_fundamental_div_mod(t2 * t, n);
    vstd::arithmetic::div_mod::lemma_mod_bound(t2 * t, n);
    assert(0 <= t3);
    assert(t3 * n <= t2 * t);
    assert(t3 * n * n <= t * t * t) by (nonlinear_arith)
        requires
            t3 * n <= t2 * t,
            t2 * n <= t * t,
            0 <= t,
            n > 0,
    ;
    // m = ceil(t · k / n), as t · k <= 0
    assert(t * k <= 0) by (nonlinear_arith)
        requires
            0 <= t < n,
            k == t * 6 - 15 * n,
    ;
    let e = -(t * k);
    vstd::arithmetic::div_mod::lemma_fundamental_div_mod(e, n);
    vstd::arithmetic::div_mod::lemma_mod_bound(e, n);
    assert(m == -(e / n));
    assert(m * n >= t * k && m * n < t * k + n);
    vstd::arithmetic::div_mod::lemma_div_pos_is_pos(e, n);
    assert(e <= 15 * n * n) by (nonlinear_arith)
        requires
            e == -(t * k),
            k == t * 6 - 15 * n,
            0 <= t < n,
            n == 65536,
    ;
    assert(t3 <= t2 * t / n);
    assert(t2 * t <= n * n) by (nonlinear_arith)
        requires
            0 <= t2 <= t,
            0 <= t < n,
    ;
    assert(t * k == 6 * t * t - 15 * t * n) by (nonlinear_arith)
        requires
            k == t * 6 - 15 * n,
    ;
    assert(inner * n >= n * n);
    assert(inner > 0) by (nonlinear_arith)
        requires
            inner * n >= n * n,
            n > 0,
    ;
    assert(0 <= t3 * inner) by (nonlinear_arith)
        requires
            0 <= t3,
            0 < inner,
    ;
    let f = fade_spec(t);
    assert(f == (t3 * inner) / n);
    vstd::arithmetic::div_mod::lemma_div_pos_is_pos(t3 * inner, n);
    // t3 · inner · n³ < n⁴ (n + 1)
    assert(t3 * inner * n * n * n <= t * t * t * (inner * n)) by (nonlinear_arith)
        requires
            t3 * n * n <= t * t * t,
            inner > 0,
            n > 0,
    ;
    assert(t * t * t * (inner * n) <= t * t * t * (t * k + n + 10 * n * n)) by (nonlinear_arith)
        requires
            inner * n < t * k + n + 10 * n * n,
            0 <= t,
    ;
    assert(t * t * t * (t * k + n + 10 * n * n) == 6 * t * t * t * t * t - 15 * t * t * t * t * n
        + 10 * t * t * t * n * n + t * t * t * n) by (nonlinear_arith)
        requires
            t * k == 6 * t * t - 15 * t * n,
    ;
    assert(t * t * t * n < n * n * n * n) by (nonlinear_arith)
        requires
            0 <= t < n,
    ;
    assert(t3 * inner < n * (n + 1)) by (nonlinear_arith)
        requires
            t3 * inner * n * n * n < n * n * n * n * (n + 1),
            n > 0,
    ;
    vstd::arithmetic::div_mod::lemma_fundamental_div_mod(t3 * inner, n);
    vstd::arithmetic::div_mod::lemma_mod_bound(t3 * inner, n);
}

/// An interpolation with a weight in `[0, 1]` lies between its ends.
pub proof fn lemma_lerp_between(t: int, a: int, b: int)
    requires
        0 <= t <= 65536,
    ensures
        a <= b ==> a <= lerp_spec(t, a, b) <= b,
        b < a ==> b <= lerp_spec(t, a, b) <= a,
{
    let d = b - a;
    if d >= 0 {
        assert(0 <= t * d <= 65536 * d) by (nonlinear_arith)
            requires
                0 <= t <= 65536,
                d >= 0,
        ;
        vstd::arithmetic::div_mod::lemma_div_is_ordered(t * d, 65536 * d, 65536);
        vstd::arithmetic::div_mod::lemma_div_pos_is_pos(t * d, 65536);
    } else {
        assert(0 <= t * (-d) <= 65536 * (-d)) by (nonlinear_arith)
            requires
                0 <= t <= 65536,
                d < 0,
        ;
        assert(t * d == -(t * (-d))) by (nonlinear_arith);
        vstd::arithmetic::div_mod::lemma_div_is_ordered(t * (-d), 65536 * (-d), 65536);
        vstd::arithmetic::div_mod::lemma_div_pos_is_pos(t * (-d), 65536);
    }
}

/// A gradient value at an offset whose components lie in `[-1, 1]` lies in `[-2, 2]`.
pub proof fn lemma_grad_bounds(hash: int, x: int, y: int, z: int)
    requires
        -65536 <= x <= 65536,
        -65536 <= y <= 65536,
        -65536 <= z <= 65536,
    ensures
        -2 * 65536 <= grad_spec(hash, x, y, z) <= 2 * 65536,
{
}

/// Perlin noise lies within `[-2, 2]` everywhere.
pub proof fn lemma_noise_bounds(x: int, y: int, z: int)
    ensures
        -2 * 65536 <= noise_at(x, y, z) <= 2 * 65536,
{
    let (xc, yc, zc) = (cell(x), cell(y), cell(z));
    let (xf, yf, zf) = (offset(x), offset(y), offset(z));
    vstd::arithmetic::div_mod::lemma_mod_bound(x, 65536);
    vstd::arithmetic::div_mod::lemma_mod_bound(y, 65536);
    vstd::arithmetic::div_mod::lemma_mod_bound(z, 65536);
    let (u, v, w) = (fade_spec(xf), fade_spec(yf), fade_spec(zf));
    lemma_fade_bounds(xf);
    lemma_fade_bounds(yf);
    lemma_fade_bounds(zf);
    let a = perm(xc) + yc;
    let aa = perm(a) + zc;
    let ab = perm(a + 1) + zc;
    let b = perm(xc + 1) + yc;
    let ba = perm(b) + zc;
    let bb = perm(b + 1) + zc;
    let one: int = 65536;
    let g1 = grad_spec(perm(aa), xf, yf, zf);
    let g2 = grad_spec(perm(ba), xf - one, yf, zf);
    let g3 = grad_spec(perm(ab), xf, yf - one, zf);
    let g4 = grad_spec(perm(bb), xf - one, yf - one, zf);
    let g5 = grad_spec(perm(aa + 1), xf, yf, zf - one);
    let g6 = grad_spec(perm(ba + 1), xf - one, yf, zf - one);
    let g7 = grad_spec(perm(ab + 1), xf, yf - one, zf - one);
    let g8 = grad_spec(perm(bb + 1), xf - one, yf - one, zf - one);
    lemma_grad_bounds(perm(aa), xf, yf, zf);
    lemma_grad_bounds(perm(ba), xf - one, yf, zf);
    lemma_grad_bounds(perm(ab), xf, yf - one, zf);
    lemma_grad_bounds(perm(bb), xf - one, yf - one, zf);
    lemma_grad_bounds(perm(aa + 1), xf, yf, zf - one);
    lemma_grad_bounds(perm(ba + 1), xf - one, yf, zf - one);
    lemma_grad_bounds(perm(ab + 1), xf, yf - one, zf - one);
    lemma_grad_bounds(perm(bb + 1), xf - one, yf - one, zf - one);
    let l1 = lerp_spec(u, g1, g2);
    let l2 = lerp_spec(u, g3, g4);
    let l3 = lerp_spec(u, g5, g6);
    let l4 = lerp_spec(u, g7, g8);
    lemma_lerp_between(u, g1, g2);
    lemma_lerp_between(u, g3, g4);
    lemma_lerp_between(u, g5, g6);
    lemma_lerp_between(u, g7, g8);
    let l5 = lerp_spec(v, l1, l2);
    let l6 = lerp_spec(v, l3, l4);
    lemma_lerp_between(v, l1, l2);
    lemma_lerp_between(v, l3, l4);
    lemma_lerp_between(w, l5, l6);
}

/// The noise value depends on the coordinates alone: two evaluations at the
/// same point agree bit for bit, and every value lies within `[-2, 2]`.
pub proof fn lemma_noise_repeatable(x: int, y: int, z: int, r1: int, r2: int)
    requires
        r1 == noise_at(x, y, z),
        r2 == noise_at(x, y, z),
    ensures
        r1 == r2,
        -2 * 65536 <= r1 <= 2 * 65536,
{
    lemma_noise_bounds(x, y, z);
}

/// A generator of gradient noise.
pub struct PerlinNoise {
    permutations: Vec<u8>,
}

impl View for PerlinNoise {
    type V = Seq<u8>;

    closed spec fn view(&self) -> Seq<u8> {
        self.permutations@
    }
}

impl PerlinNoise {
    #[verifier::type_invariant]
    spec fn inv(self) -> bool {
        self.permutations@ == permutation_table()
    }

    /// A generator over the canonical table.
    pub fn new() -> (r: PerlinNoise)
        ensures
            r@ == permutation_table(),
    {
        let base: [u8; 256] = [
            151, 160, 137, 91, 90, 15, 131, 13, 201, 95, 96, 53, 194, 233, 7, 225,
            140, 36, 103, 30, 69, 142, 8, 99, 37, 240, 21, 10, 23, 190, 6, 148,
            247, 120, 234, 75, 0, 26, 197, 62, 94, 252, 219, 203, 117, 35, 11, 32,
            57, 177, 33, 88, 237, 149, 56, 87, 174, 20, 125, 136, 171, 168, 68, 175,
            74, 165, 71, 134, 139, 48, 27, 166, 77, 146, 158, 231, 83, 111, 229, 122,
            60, 211, 133, 230, 220, 105, 92, 41, 55, 46, 245, 40, 244, 102, 143, 54,
            65, 25, 63, 161, 1, 216, 80, 73, 209, 76, 132, 187, 208, 89, 18, 169,
            200, 196, 135, 130, 116, 188, 159, 86, 164, 100, 109, 198, 173, 186, 3, 64,
            52, 217, 226, 250, 124, 123, 5, 202, 38, 147, 118, 126, 255, 82, 85, 212,
            207, 206, 59, 227, 47, 16, 58, 17, 182, 189, 28, 42, 223, 183, 170, 213,
            119, 248, 152, 2, 44, 154, 163, 70, 221, 153, 101, 155, 167, 43, 172, 9,
            129, 22, 39, 253, 19, 98, 108, 110, 79, 113, 224, 232, 178, 185, 112, 104,
            218, 246, 97, 228, 251, 34, 242, 193, 238, 210, 144, 12, 191, 179, 162, 241,
            81, 51, 145, 235, 249, 14, 239, 107, 49, 192, 214, 31, 181, 199, 106, 157,
            184, 84, 204, 176, 115, 121, 50, 45, 127, 4, 150, 254, 138, 236, 205, 93,
            222, 114, 67, 29, 24, 72, 243, 141, 128, 195, 78, 66, 215, 61, 156, 180,
        ];
        assert(base@ == base_permutation()) by {
            reveal(base_permutation);
        }
        let mut permutations: Vec<u8> = Vec::new();
        let mut i: usize = 0;
        while i < 512
            invariant
                i <= 512,
                base@ == base_permutation(),
                permutations@ == permutation_table().subrange(0, i as int),
            decreases 512 - i,
        {
            permutations.push(base[i % 256]);
            proof {
                assert(permutation_table()[i as int] == base_permutation()[i as int % 256]);
                assert(permutations@ =~= permutation_table().subrange(0, i + 1));
            }
            i += 1;
        }
        assert(permutations@ =~= permutation_table());
        PerlinNoise { permutations }
    }

    /// The noise value at `(x, y, z)`.
    pub fn noise(&self, x: i32, y: i32, z: i32) -> (r: i32)
        ensures
            r == noise_at(x as int, y as int, z as int),
            -2 * ONE <= r <= 2 * ONE,
    {
        proof {
            use_type_invariant(self);
            lemma_table_len();
            lemma_noise_bounds(x as int, y as int, z as int);
        }
        let (xc, xf) = split(x);
        let (yc, yf) = split(y);
        let (zc, zf) = split(z);
        proof {
            lemma_fade_bounds(xf as int);
            lemma_fade_bounds(yf as int);
            lemma_fade_bounds(zf as int);
        }
        let u = fade(xf);
        let v = fade(yf);
        let w = fade(zf);
        let p = &self.permutations;
        let a = p[xc] as usize + yc;
        let aa = p[a] as usize + zc;
        let ab = p[a + 1] as usize + zc;
        let b = p[xc + 1] as usize + yc;
        let ba = p[b] as usize + zc;
        let bb = p[b + 1] as usize + zc;
        let (xg, yg, zg) = (xf - ONE, yf - ONE, zf - ONE);
        let g1 = grad(p[aa], xf, yf, zf);
        let g2 = grad(p[ba], xg, yf, zf);
        let g3 = grad(p[ab], xf, yg, zf);
        let g4 = grad(p[bb], xg, yg, zf);
        let g5 = grad(p[aa + 1], xf, yf, zg);
        let g6 = grad(p[ba + 1], xg, yf, zg);
        let g7 = grad(p[ab + 1], xf, yg, zg);
        let g8 = grad(p[bb + 1], xg, yg, zg);
        let l1 = lerp(u, g1, g2);
        let l2 = lerp(u, g3, g4);
        let l3 = lerp(u, g5, g6);
        let l4 = lerp(u, g7, g8);
        let l5 = lerp(v, l1, l2);
        let l6 = lerp(v, l3, l4);
        lerp(w, l5, l6)
    }
}

/// The lattice cell (wrapped to `0..256`) and the offset within it of a coordinate.
fn split(x: i32) -> (r: (usize, i32))
    ensures
        r.0 == cell(x as int),
        r.1 == offset(x as int),
        r.0 < 256,
        0 <= r.1 < ONE,
{
    let shifted: u64 = ((x as i64) + 0x8000_0000) as u64;
    proof {
        assert(shifted == x + 32768 * 65536);
        vstd::arithmetic::div_mod::lemma_fundamental_div_mod(x as int, 65536);
        vstd::arithmetic::div_mod::lemma_fundamental_div_mod_converse(
            shifted as int,
            65536,
            x / 65536 + 32768,
            (x as int) % 65536,
        );
        vstd::arithmetic::div_mod::lemma_mod_bound(x as int, 65536);
        let q = x / 65536;
        vstd::arithmetic::div_mod::lemma_fundamental_div_mod(q, 256);
        vstd::arithmetic::div_mod::lemma_mod_bound(q, 256);
        vstd::arithmetic::div_mod::lemma_fundamental_div_mod_converse(
            q + 32768,
            256,
            q / 256 + 128,
            q % 256,
        );
    }
    (((shifted / 65536) % 256) as usize, (shifted % 65536) as i32)
}

pub fn fade(t: i32) -> (r: i32)
    requires
        0 <= t < ONE,
    ensures
        r == fade_spec(t as int),
        0 <= r <= ONE,
{
    proof {
        lemma_fade_bounds(t as int);
    }
    let t2 = fmul(t, t);
    let t3 = fmul(t2, t);
    let inner = fmul(t, t * 6 - 15 * ONE) + 10 * ONE;
    fmul(t3, inner)
}

pub fn lerp(t: i32, a: i32, b: i32) -> (r: i32)
    requires
        0 <= t <= ONE,
        -2 * ONE <= a <= 2 * ONE,
        -2 * ONE <= b <= 2 * ONE,
    ensures
        r == lerp_spec(t as int, a as int, b as int),
        -2 * ONE <= r <= 2 * ONE,
{
    proof {
        lemma_lerp_between(t as int, a as int, b as int);
    }
    a + fmul(t, b - a)
}

pub fn grad(hash: u8, x: i32, y: i32, z: i32) -> (r: i32)
    requires
        -ONE <= x <= ONE,
        -ONE <= y <= ONE,
        -ONE <= z <= ONE,
    ensures
        r == grad_spec(hash as int, x as int, y as int, z as int),
        -2 * ONE <= r <= 2 * ONE,
{
    let h = hash % 16;
    let u = if h < 8 {
        x
    } else {
        y
    };
    let v = if h < 4 {
        y
    } else if h == 12 || h == 14 {
        x
    } else {
        z
    };
    (if h % 2 == 0 {
        u
    } else {
        -u
    }) + (if (h / 2) % 2 == 0 {
        v
    } else {
        -v
    })
}

} // verus!
