//! Two-, three- and four-component vectors of fixed-point scalars.
use vstd::prelude::*;
use crate::fixed::{
    fdiv, fixed_div, fixed_mul, fmul, in_range, isqrt, isqrt_u64, lemma_le_sqrt,
    lemma_mul_i32_bound, lemma_sqrt_exists,
};

verus! {

/// A homogeneous point or direction.
#[derive(Clone, Copy, Debug, PartialEq, Eq, Structural)]
pub struct Vec4 {
    pub x: i32,
    pub y: i32,
    pub z: i32,
    pub w: i32,
}

/// A point or direction in space.
#[derive(Clone, Copy, Debug, PartialEq, Eq, Structural)]
pub struct Vec3 {
    pub x: i32,
    pub y: i32,
    pub z: i32,
}

/// A point or direction in the plane.
#[derive(Clone, Copy, Debug, PartialEq, Eq, Structural)]
pub struct Vec2 {
    pub x: i32,
    pub y: i32,
}

/// Bounds of a fixed-point quotient `a / n` where `|a| <= n`: it lies in `[-1, 1]`.
pub proof fn lemma_unit_quotient(a: int, n: int)
    requires
        n > 0,
        -n <= a <= n,
    ensures
        -65536 <= fixed_div(a, n) <= 65536,
{
    let m = if a >= 0 { a } else { -a };
    assert(0 <= m * 65536 <= n * 65536) by (nonlinear_arith)
        requires
            0 <= m <= n,
    ;
    vstd::arithmetic::div_mod::lemma_div_is_ordered(m * 65536, n * 65536, n);
    vstd::arithmetic::div_mod::lemma_div_multiples_vanish(65536, n);
    assert((n * 65536) / n == 65536) by {
        vstd::arithmetic::mul::lemma_mul_is_commutative(n, 65536);
    }
    vstd::arithmetic::div_mod::lemma_div_pos_is_pos(m * 65536, n);
    assert(a * 65536 == m * 65536 || a * 65536 == -(m * 65536));
}

/// The components of a normalized non-zero vector lie in `[-1, 1]`.
pub proof fn lemma_normalized_bounds(v: Vec3)
    requires
        !v.is_zero(),
    ensures
        v.norm() >= 1,
        -65536 <= fixed_div(v.x as int, v.norm()) <= 65536,
        -65536 <= fixed_div(v.y as int, v.norm()) <= 65536,
        -65536 <= fixed_div(v.z as int, v.norm()) <= 65536,
{
    let sq = v.sq_len();
    assert(v.x * v.x >= 0 && v.y * v.y >= 0 && v.z * v.z >= 0) by (nonlinear_arith);
    assert(sq >= 1) by (nonlinear_arith)
        requires
            sq == v.x * v.x + v.y * v.y + v.z * v.z,
            v.x != 0 || v.y != 0 || v.z != 0,
    ;
    lemma_sqrt_exists(sq);
    let n = v.norm();
    assert(n >= 1) by (nonlinear_arith)
        requires
            sq >= 1,
            sq < (n + 1) * (n + 1),
            n >= 0,
    ;
    lemma_le_sqrt(sq, n, v.x as int);
    lemma_le_sqrt(sq, n, v.y as int);
    lemma_le_sqrt(sq, n, v.z as int);
    lemma_unit_quotient(v.x as int, n);
    lemma_unit_quotient(v.y as int, n);
    lemma_unit_quotient(v.z as int, n);
}

/// The square of a scalar, as a non-negative `u64`.
fn square(v: i32) -> (r: u64)
    ensures
        r as int == v * v,
        r <= 0x4000_0000_0000_0000,
{
    proof {
        lemma_mul_i32_bound(v, v);
        assert(v * v >= 0) by (nonlinear_arith);
    }
    ((v as i64) * (v as i64)) as u64
}

impl Vec4 {
    pub fn new(x: i32, y: i32, z: i32, w: i32) -> (r: Vec4)
        ensures
            r == (Vec4 { x, y, z, w }),
    {
        Vec4 { x, y, z, w }
    }
}

impl Vec3 {
    /// The squared length, in raw units.
    pub open spec fn sq_len(self) -> int {
        self.x * self.x + self.y * self.y + self.z * self.z
    }

    /// The length, in raw units, rounded down.
    pub open spec fn norm(self) -> int {
        isqrt(self.sq_len())
    }

    pub open spec fn is_zero(self) -> bool {
        self.x == 0 && self.y == 0 && self.z == 0
    }

    /// The vector divided by its length.
    pub open spec fn normalized(self) -> Vec3 {
        Vec3 {
            x: fixed_div(self.x as int, self.norm()) as i32,
            y: fixed_div(self.y as int, self.norm()) as i32,
            z: fixed_div(self.z as int, self.norm()) as i32,
        }
    }

    /// The components of the cross product, before they are narrowed to `i32`.
    pub open spec fn cross_x(self, o: Vec3) -> int {
        fixed_mul(self.y as int, o.z as int) - fixed_mul(self.z as int, o.y as int)
    }

    pub open spec fn cross_y(self, o: Vec3) -> int {
        fixed_mul(self.z as int, o.x as int) - fixed_mul(self.x as int, o.z as int)
    }

    pub open spec fn cross_z(self, o: Vec3) -> int {
        fixed_mul(self.x as int, o.y as int) - fixed_mul(self.y as int, o.x as int)
    }

    pub open spec fn cross_fits(self, o: Vec3) -> bool {
        in_range(self.cross_x(o)) && in_range(self.cross_y(o)) && in_range(self.cross_z(o))
    }

    /// The cross product `self × o`.
    pub open spec fn cross(self, o: Vec3) -> Vec3 {
        Vec3 { x: self.cross_x(o) as i32, y: self.cross_y(o) as i32, z: self.cross_z(o) as i32 }
    }

    /// The dot product, before it is narrowed to `i32`.
    pub open spec fn dot(self, o: Vec3) -> int {
        fixed_mul(self.x as int, o.x as int) + fixed_mul(self.y as int, o.y as int) + fixed_mul(
            self.z as int,
            o.z as int,
        )
    }

    pub open spec fn add_fits(self, o: Vec3) -> bool {
        in_range(self.x + o.x) && in_range(self.y + o.y) && in_range(self.z + o.z)
    }

    pub open spec fn sub_fits(self, o: Vec3) -> bool {
        in_range(self.x - o.x) && in_range(self.y - o.y) && in_range(self.z - o.z)
    }

    /// The component-wise sum.
    pub open spec fn plus(self, o: Vec3) -> Vec3 {
        Vec3 { x: (self.x + o.x) as i32, y: (self.y + o.y) as i32, z: (self.z + o.z) as i32 }
    }

    /// The component-wise difference.
    pub open spec fn minus(self, o: Vec3) -> Vec3 {
        Vec3 { x: (self.x - o.x) as i32, y: (self.y - o.y) as i32, z: (self.z - o.z) as i32 }
    }

    pub fn new(x: i32, y: i32, z: i32) -> (r: Vec3)
        ensures
            r == (Vec3 { x, y, z }),
    {
        Vec3 { x, y, z }
    }

    /// The squared length, in raw units.
    fn sq_len_exec(&self) -> (r: u64)
        ensures
            r as int == self.sq_len(),
    {
        square(self.x) + square(self.y) + square(self.z)
    }

    /// Divides each component by the length.
    pub fn normalize(&mut self)
        requires
            !old(self).is_zero(),
        ensures
            *final(self) == old(self).normalized(),
            -65536 <= final(self).x <= 65536,
            -65536 <= final(self).y <= 65536,
            -65536 <= final(self).z <= 65536,
    {
        let sq = self.sq_len_exec();
        let n = isqrt_u64(sq);
        proof {
            lemma_normalized_bounds(*self);
        }
        let n = n as i64;
        self.x = fdiv(self.x, n);
        self.y = fdiv(self.y, n);
        self.z = fdiv(self.z, n);
    }

    pub fn cross_product(&self, oth: &Vec3) -> (r: Vec3)
        requires
            self.cross_fits(*oth),
        ensures
            r == self.cross(*oth),
    {
        let x = fmul_diff(self.y, oth.z, self.z, oth.y);
        let y = fmul_diff(self.z, oth.x, self.x, oth.z);
        let z = fmul_diff(self.x, oth.y, self.y, oth.x);
        Vec3 { x, y, z }
    }

    pub fn dot_product(&self, oth: &Vec3) -> (r: i32)
        requires
            in_range(self.dot(*oth)),
        ensures
            r == self.dot(*oth),
    {
        let s = crate::fixed::fmul_wide(self.x, oth.x) + crate::fixed::fmul_wide(self.y, oth.y)
            + crate::fixed::fmul_wide(self.z, oth.z);
        s as i32
    }

    pub fn add_vec(&self, oth: &Vec3) -> (r: Vec3)
        requires
            self.add_fits(*oth),
        ensures
            r == self.plus(*oth),
    {
        Vec3 { x: self.x + oth.x, y: self.y + oth.y, z: self.z + oth.z }
    }

    pub fn sub_vec(&self, oth: &Vec3) -> (r: Vec3)
        requires
            self.sub_fits(*oth),
        ensures
            r == self.minus(*oth),
    {
        Vec3 { x: self.x - oth.x, y: self.y - oth.y, z: self.z - oth.z }
    }

    /// Each component multiplied by `scalar`.
    pub fn scalar_product(&self, scalar: i32) -> (r: Vec3)
        requires
            in_range(fixed_mul(self.x as int, scalar as int)),
            in_range(fixed_mul(self.y as int, scalar as int)),
            in_range(fixed_mul(self.z as int, scalar as int)),
        ensures
            r.x == fixed_mul(self.x as int, scalar as int),
            r.y == fixed_mul(self.y as int, scalar as int),
            r.z == fixed_mul(self.z as int, scalar as int),
    {
        Vec3 { x: fmul(self.x, scalar), y: fmul(self.y, scalar), z: fmul(self.z, scalar) }
    }
}

/// `a * b - c * d` in fixed point, each product rounded on its own.
fn fmul_diff(a: i32, b: i32, c: i32, d: i32) -> (r: i32)
    requires
        in_range(fixed_mul(a as int, b as int) - fixed_mul(c as int, d as int)),
    ensures
        r == fixed_mul(a as int, b as int) - fixed_mul(c as int, d as int),
{
    (crate::fixed::fmul_wide(a, b) - crate::fixed::fmul_wide(c, d)) as i32
}

impl Vec2 {
    /// The squared length, in raw units.
    pub open spec fn sq_len(self) -> int {
        self.x * self.x + self.y * self.y
    }

    /// The length, in raw units, rounded down.
    pub open spec fn norm(self) -> int {
        isqrt(self.sq_len())
    }

    /// The vector divided by its length.
    pub open spec fn normalized(self) -> Vec2 {
        Vec2 {
            x: fixed_div(self.x as int, self.norm()) as i32,
            y: fixed_div(self.y as int, self.norm()) as i32,
        }
    }

    /// The dot product, before it is narrowed to `i32`.
    pub open spec fn dot(self, o: Vec2) -> int {
        fixed_mul(self.x as int, o.x as int) + fixed_mul(self.y as int, o.y as int)
    }

    pub fn new(x: i32, y: i32) -> (r: Vec2)
        ensures
            r == (Vec2 { x, y }),
    {
        Vec2 { x, y }
    }

    /// Divides each component by the length.
    pub fn normalize(&mut self)
        requires
            old(self).x != 0 || old(self).y != 0,
        ensures
            *final(self) == old(self).normalized(),
            -65536 <= final(self).x <= 65536,
            -65536 <= final(self).y <= 65536,
    {
        let sq = square(self.x) + square(self.y);
        let n = isqrt_u64(sq);
        proof {
            let v = *self;
            assert(v.x * v.x >= 0 && v.y * v.y >= 0) by (nonlinear_arith);
            assert(sq >= 1) by (nonlinear_arith)
                requires
                    sq == v.x * v.x + v.y * v.y,
                    v.x != 0 || v.y != 0,
            ;
            assert(n >= 1) by (nonlinear_arith)
                requires
                    sq >= 1,
                    sq < (n + 1) * (n + 1),
                    n >= 0,
            ;
            lemma_le_sqrt(sq as int, n as int, v.x as int);
            lemma_le_sqrt(sq as int, n as int, v.y as int);
            lemma_unit_quotient(v.x as int, n as int);
            lemma_unit_quotient(v.y as int, n as int);
        }
        let n = n as i64;
        self.x = fdiv(self.x, n);
        self.y = fdiv(self.y, n);
    }

    pub fn dot_product(&self, oth: &Vec2) -> (r: i32)
        requires
            in_range(self.dot(*oth)),
        ensures
            r == self.dot(*oth),
    {
        (crate::fixed::fmul_wide(self.x, oth.x) + crate::fixed::fmul_wide(self.y, oth.y)) as i32
    }

    pub fn add_vec(&self, oth: &Vec2) -> (r: Vec2)
        requires
            in_range(self.x + oth.x),
            in_range(self.y + oth.y),
        ensures
            r.x == self.x + oth.x,
            r.y == self.y + oth.y,
    {
        Vec2 { x: self.x + oth.x, y: self.y + oth.y }
    }

    pub fn sub_vec(&self, oth: &Vec2) -> (r: Vec2)
        requires
            in_range(self.x - oth.x),
            in_range(self.y - oth.y),
        ensures
            r.x == self.x - oth.x,
            r.y == self.y - oth.y,
    {
        Vec2 { x: self.x - oth.x, y: self.y - oth.y }
    }

    /// Each component multiplied by `scalar`.
    pub fn scalar_product(&self, scalar: i32) -> (r: Vec2)
        requires
            in_range(fixed_mul(self.x as int, scalar as int)),
            in_range(fixed_mul(self.y as int, scalar as int)),
        ensures
            r.x == fixed_mul(self.x as int, scalar as int),
            r.y == fixed_mul(self.y as int, scalar as int),
    {
        Vec2 { x: fmul(self.x, scalar), y: fmul(self.y, scalar) }
    }
}

} // verus!
