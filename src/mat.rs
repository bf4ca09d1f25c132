//! 4×4 homogeneous matrices of fixed-point scalars.
//!
//! The sixteen fields are grouped by column, as a GPU expects a uniform
//! matrix: `a1..a4` is the first column, `d1..d4` the last, and a
//! translation sits in `d1..d3`. Row `r` of the matrix is therefore
//! `(a_r, b_r, c_r, d_r)`.
use vstd::prelude::*;
use crate::fixed::{fdiv, fixed_div, fixed_mul, fmul, fmul_wide, in_range, ONE};
use crate::vec::{Vec3, Vec4};

verus! {

/// An angle given by its cosine and sine.
#[derive(Clone, Copy, Debug, PartialEq, Eq, Structural)]
pub struct Angle {
    pub cos: i32,
    pub sin: i32,
}

impl Angle {
    /// Both values lie in `[-1, 1]`.
    pub open spec fn wf(self) -> bool {
        -65536 <= self.cos <= 65536 && -65536 <= self.sin <= 65536
    }
}

#[derive(Clone, Copy, Debug, PartialEq, Eq, Structural)]
pub struct Mat4 {
    pub a1: i32,
    pub a2: i32,
    pub a3: i32,
    pub a4: i32,
    pub b1: i32,
    pub b2: i32,
    pub b3: i32,
    pub b4: i32,
    pub c1: i32,
    pub c2: i32,
    pub c3: i32,
    pub c4: i32,
    pub d1: i32,
    pub d2: i32,
    pub d3: i32,
    pub d4: i32,
}

impl Vec4 {
    /// Component `r`.
    pub open spec fn row_at(self, r: int) -> int {
        if r == 0 {
            self.x as int
        } else if r == 1 {
            self.y as int
        } else if r == 2 {
            self.z as int
        } else {
            self.w as int
        }
    }
}

/// The fixed-point dot product of two 4-vectors, each product rounded on its own.
pub open spec fn dot4(u: Vec4, v: Vec4) -> int {
    fixed_mul(u.x as int, v.x as int) + fixed_mul(u.y as int, v.y as int) + fixed_mul(
        u.z as int,
        v.z as int,
    ) + fixed_mul(u.w as int, v.w as int)
}

/// Whether an `i64` is representable as an `i32`.
pub fn fits_i32(v: i64) -> (r: bool)
    ensures
        r == in_range(v as int),
{
    i32::MIN as i64 <= v && v <= i32::MAX as i64
}

fn dot4_wide(u: Vec4, v: Vec4) -> (r: i64)
    ensures
        r == dot4(u, v),
{
    fmul_wide(u.x, v.x) + fmul_wide(u.y, v.y) + fmul_wide(u.z, v.z) + fmul_wide(u.w, v.w)
}

proof fn lemma_unit_mul(a: int, b: int)
    requires
        -65536 <= a <= 65536,
        -65536 <= b <= 65536,
    ensures
        -65536 <= fixed_mul(a, b) <= 65536,
{
    assert(-65536 * 65536 <= a * b <= 65536 * 65536) by (nonlinear_arith)
        requires
            -65536 <= a <= 65536,
            -65536 <= b <= 65536,
    ;
}

impl Mat4 {
    /// Row `r`: the `r`-th field of each column.
    pub open spec fn row(self, r: int) -> Vec4 {
        if r == 0 {
            Vec4 { x: self.a1, y: self.b1, z: self.c1, w: self.d1 }
        } else if r == 1 {
            Vec4 { x: self.a2, y: self.b2, z: self.c2, w: self.d2 }
        } else if r == 2 {
            Vec4 { x: self.a3, y: self.b3, z: self.c3, w: self.d3 }
        } else {
            Vec4 { x: self.a4, y: self.b4, z: self.c4, w: self.d4 }
        }
    }

    /// Column `c`: the fields of group `a`, `b`, `c` or `d`.
    pub open spec fn col(self, c: int) -> Vec4 {
        if c == 0 {
            Vec4 { x: self.a1, y: self.a2, z: self.a3, w: self.a4 }
        } else if c == 1 {
            Vec4 { x: self.b1, y: self.b2, z: self.b3, w: self.b4 }
        } else if c == 2 {
            Vec4 { x: self.c1, y: self.c2, z: self.c3, w: self.c4 }
        } else {
            Vec4 { x: self.d1, y: self.d2, z: self.d3, w: self.d4 }
        }
    }

    /// The entry in row `r`, column `c` of the product `a · b`, before narrowing.
    pub open spec fn product_entry(a: Mat4, b: Mat4, c: int, r: int) -> int {
        dot4(a.row(r), b.col(c))
    }

    #[verifier::opaque]
    pub open spec fn product_fits(a: Mat4, b: Mat4) -> bool {
        forall|c: int, r: int|
            0 <= c < 4 && 0 <= r < 4 ==> #[trigger] in_range(Mat4::product_entry(a, b, c, r))
    }

    /// The matrix product `a · b`.
    #[verifier::opaque]
    pub open spec fn product(a: Mat4, b: Mat4) -> Mat4 {
        Mat4 {
            a1: Mat4::product_entry(a, b, 0, 0) as i32,
            a2: Mat4::product_entry(a, b, 0, 1) as i32,
            a3: Mat4::product_entry(a, b, 0, 2) as i32,
            a4: Mat4::product_entry(a, b, 0, 3) as i32,
            b1: Mat4::product_entry(a, b, 1, 0) as i32,
            b2: Mat4::product_entry(a, b, 1, 1) as i32,
            b3: Mat4::product_entry(a, b, 1, 2) as i32,
            b4: Mat4::product_entry(a, b, 1, 3) as i32,
            c1: Mat4::product_entry(a, b, 2, 0) as i32,
            c2: Mat4::product_entry(a, b, 2, 1) as i32,
            c3: Mat4::product_entry(a, b, 2, 2) as i32,
            c4: Mat4::product_entry(a, b, 2, 3) as i32,
            d1: Mat4::product_entry(a, b, 3, 0) as i32,
            d2: Mat4::product_entry(a, b, 3, 1) as i32,
            d3: Mat4::product_entry(a, b, 3, 2) as i32,
            d4: Mat4::product_entry(a, b, 3, 3) as i32,
        }
    }

    pub open spec fn apply_fits(m: Mat4, v: Vec4) -> bool {
        forall|r: int| 0 <= r < 4 ==> #[trigger] in_range(dot4(m.row(r), v))
    }

    /// The image `m · v` of a homogeneous vector.
    pub open spec fn apply(m: Mat4, v: Vec4) -> Vec4 {
        Vec4 {
            x: dot4(m.row(0), v) as i32,
            y: dot4(m.row(1), v) as i32,
            z: dot4(m.row(2), v) as i32,
            w: dot4(m.row(3), v) as i32,
        }
    }

    pub open spec fn identity_spec() -> Mat4 {
        Mat4::translation(0, 0, 0)
    }

    pub open spec fn translation(x: i32, y: i32, z: i32) -> Mat4 {
        Mat4 {
            a1: ONE,
            a2: 0,
            a3: 0,
            a4: 0,
            b1: 0,
            b2: ONE,
            b3: 0,
            b4: 0,
            c1: 0,
            c2: 0,
            c3: ONE,
            c4: 0,
            d1: x,
            d2: y,
            d3: z,
            d4: ONE,
        }
    }

    pub open spec fn scaling(x: i32, y: i32, z: i32) -> Mat4 {
        Mat4 {
            a1: x,
            a2: 0,
            a3: 0,
            a4: 0,
            b1: 0,
            b2: y,
            b3: 0,
            b4: 0,
            c1: 0,
            c2: 0,
            c3: z,
            c4: 0,
            d1: 0,
            d2: 0,
            d3: 0,
            d4: ONE,
        }
    }

    /// The rotation by the Euler angles `x`, `y`, `z`, in yaw-pitch-roll order.
    pub open spec fn rotation(x: Angle, y: Angle, z: Angle) -> Mat4 {
        let (a, b, c, d, e, f) = (
            x.cos as int,
            x.sin as int,
            y.cos as int,
            y.sin as int,
            z.cos as int,
            z.sin as int,
        );
        let ad = fixed_mul(a, d);
        let bd = fixed_mul(b, d);
        Mat4 {
            a1: fixed_mul(c, e) as i32,
            a2: fixed_mul(-c, f) as i32,
            a3: -d as i32,
            a4: 0,
            b1: (fixed_mul(-bd, e) + fixed_mul(a, f)) as i32,
            b2: (fixed_mul(bd, f) + fixed_mul(a, e)) as i32,
            b3: fixed_mul(-b, c) as i32,
            b4: 0,
            c1: (fixed_mul(ad, e) + fixed_mul(b, f)) as i32,
            c2: (fixed_mul(-ad, f) + fixed_mul(b, e)) as i32,
            c3: fixed_mul(a, c) as i32,
            c4: 0,
            d1: 0,
            d2: 0,
            d3: 0,
            d4: ONE,
        }
    }

    /// Whether every step of `frustum` is representable and no divisor is zero.
    pub open spec fn frustum_defined(
        bottom: int,
        top: int,
        left: int,
        right: int,
        near: int,
        far: int,
    ) -> bool {
        &&& right - left > 0
        &&& top - bottom > 0
        &&& far - near > 0
        &&& in_range(2 * near) && in_range(2 * far)
        &&& in_range(right + left) && in_range(top + bottom) && in_range(far + near)
        &&& right - left <= i32::MAX && top - bottom <= i32::MAX && far - near <= i32::MAX
        &&& in_range(fixed_div(2 * near, right - left))
        &&& in_range(fixed_div(2 * near, top - bottom))
        &&& in_range(fixed_div(right + left, right - left))
        &&& in_range(fixed_div(top + bottom, top - bottom))
        &&& in_range(fixed_div(far + near, far - near))
        &&& in_range(-fixed_div(far + near, far - near))
        &&& in_range(fixed_mul(2 * far, near))
        &&& in_range(fixed_div(fixed_mul(2 * far, near), far - near))
        &&& in_range(-fixed_div(fixed_mul(2 * far, near), far - near))
    }

    /// The projection onto the view volume bounded by the six planes.
    pub open spec fn frustum(bottom: int, top: int, left: int, right: int, near: int, far: int) -> Mat4 {
        Mat4 {
            a1: fixed_div(2 * near, right - left) as i32,
            a2: 0,
            a3: 0,
            a4: 0,
            b1: 0,
            b2: fixed_div(2 * near, top - bottom) as i32,
            b3: 0,
            b4: 0,
            c1: fixed_div(right + left, right - left) as i32,
            c2: fixed_div(top + bottom, top - bottom) as i32,
            c3: -fixed_div(far + near, far - near) as i32,
            c4: (-65536) as i32,
            d1: 0,
            d2: 0,
            d3: -fixed_div(fixed_mul(2 * far, near), far - near) as i32,
            d4: 0,
        }
    }

    /// `near · tan(fovy / 2)`, the half-width of the near plane before the aspect ratio.
    pub open spec fn near_extent(half_fovy: Angle, z_near: int) -> int {
        fixed_mul(z_near, fixed_div(half_fovy.sin as int, half_fovy.cos as int))
    }

    pub open spec fn perspective_defined(half_fovy: Angle, aspect: int, z_near: int, z_far: int) -> bool {
        let right = Mat4::near_extent(half_fovy, z_near);
        let top = fixed_mul(right, aspect);
        &&& half_fovy.cos > 0
        &&& in_range(fixed_div(half_fovy.sin as int, half_fovy.cos as int))
        &&& in_range(right) && in_range(-right)
        &&& in_range(top) && in_range(-top)
        &&& Mat4::frustum_defined(-right, right, -top, top, z_near, z_far)
    }

    /// The symmetric perspective projection; `half_fovy` is half the vertical field of view.
    pub open spec fn perspective_spec(half_fovy: Angle, aspect: int, z_near: int, z_far: int) -> Mat4 {
        let right = Mat4::near_extent(half_fovy, z_near);
        let top = fixed_mul(right, aspect);
        Mat4::frustum(-right, right, -top, top, z_near, z_far)
    }

    /// The unit direction from the eye to the target.
    pub open spec fn look_forward(eye: Vec3, center: Vec3) -> Vec3 {
        center.minus(eye).normalized()
    }

    /// The unit direction to the right of the view.
    pub open spec fn look_side(eye: Vec3, center: Vec3, up: Vec3) -> Vec3 {
        Mat4::look_forward(eye, center).cross(up).normalized()
    }

    /// The up direction recomputed orthogonal to the view.
    pub open spec fn look_up(eye: Vec3, center: Vec3, up: Vec3) -> Vec3 {
        Mat4::look_side(eye, center, up).cross(Mat4::look_forward(eye, center))
    }

    /// Whether each step of `look_at` is representable and no normalized vector is zero;
    /// in particular the view direction is not parallel to `up`.
    pub open spec fn look_at_defined(eye: Vec3, center: Vec3, up: Vec3) -> bool {
        let f = Mat4::look_forward(eye, center);
        let s = Mat4::look_side(eye, center, up);
        let u = Mat4::look_up(eye, center, up);
        &&& center.sub_fits(eye)
        &&& !center.minus(eye).is_zero()
        &&& f.cross_fits(up)
        &&& !f.cross(up).is_zero()
        &&& in_range(-eye.dot(s))
        &&& in_range(-eye.dot(u))
        &&& in_range(eye.dot(f))
    }

    /// The view matrix of an eye at `eye` looking at `center`.
    pub open spec fn look_at_spec(eye: Vec3, center: Vec3, up: Vec3) -> Mat4 {
        let f = Mat4::look_forward(eye, center);
        let s = Mat4::look_side(eye, center, up);
        let u = Mat4::look_up(eye, center, up);
        Mat4 {
            a1: s.x,
            a2: u.x,
            a3: -f.x as i32,
            a4: 0,
            b1: s.y,
            b2: u.y,
            b3: -f.y as i32,
            b4: 0,
            c1: s.z,
            c2: u.z,
            c3: -f.z as i32,
            c4: 0,
            d1: -eye.dot(s) as i32,
            d2: -eye.dot(u) as i32,
            d3: eye.dot(f) as i32,
            d4: ONE,
        }
    }

    fn row_at(&self, r: usize) -> (v: Vec4)
        requires
            r < 4,
        ensures
            v == self.row(r as int),
    {
        if r == 0 {
            Vec4 { x: self.a1, y: self.b1, z: self.c1, w: self.d1 }
        } else if r == 1 {
            Vec4 { x: self.a2, y: self.b2, z: self.c2, w: self.d2 }
        } else if r == 2 {
            Vec4 { x: self.a3, y: self.b3, z: self.c3, w: self.d3 }
        } else {
            Vec4 { x: self.a4, y: self.b4, z: self.c4, w: self.d4 }
        }
    }

    fn col_at(&self, c: usize) -> (v: Vec4)
        requires
            c < 4,
        ensures
            v == self.col(c as int),
    {
        if c == 0 {
            Vec4 { x: self.a1, y: self.a2, z: self.a3, w: self.a4 }
        } else if c == 1 {
            Vec4 { x: self.b1, y: self.b2, z: self.b3, w: self.b4 }
        } else if c == 2 {
            Vec4 { x: self.c1, y: self.c2, z: self.c3, w: self.c4 }
        } else {
            Vec4 { x: self.d1, y: self.d2, z: self.d3, w: self.d4 }
        }
    }

    fn entry_wide(&self, oth: &Mat4, c: usize, r: usize) -> (v: i64)
        requires
            c < 4,
            r < 4,
        ensures
            v == Mat4::product_entry(*self, *oth, c as int, r as int),
    {
        dot4_wide(self.row_at(r), oth.col_at(c))
    }

    pub fn identity() -> (r: Mat4)
        ensures
            r == Mat4::identity_spec(),
    {
        Mat4::translate(0, 0, 0)
    }

    pub fn translate(x: i32, y: i32, z: i32) -> (r: Mat4)
        ensures
            r == Mat4::translation(x, y, z),
    {
        Mat4 {
            a1: ONE,
            a2: 0,
            a3: 0,
            a4: 0,
            b1: 0,
            b2: ONE,
            b3: 0,
            b4: 0,
            c1: 0,
            c2: 0,
            c3: ONE,
            c4: 0,
            d1: x,
            d2: y,
            d3: z,
            d4: ONE,
        }
    }

    pub fn scale(x: i32, y: i32, z: i32) -> (r: Mat4)
        ensures
            r == Mat4::scaling(x, y, z),
    {
        Mat4 {
            a1: x,
            a2: 0,
            a3: 0,
            a4: 0,
            b1: 0,
            b2: y,
            b3: 0,
            b4: 0,
            c1: 0,
            c2: 0,
            c3: z,
            c4: 0,
            d1: 0,
            d2: 0,
            d3: 0,
            d4: ONE,
        }
    }

    pub fn rotate(x: Angle, y: Angle, z: Angle) -> (r: Mat4)
        requires
            x.wf(),
            y.wf(),
            z.wf(),
        ensures
            r == Mat4::rotation(x, y, z),
    {
        let (a, b, c, d, e, f) = (x.cos, x.sin, y.cos, y.sin, z.cos, z.sin);
        proof {
            lemma_unit_mul(a as int, d as int);
            lemma_unit_mul(b as int, d as int);
            let (ad, bd) = (fixed_mul(a as int, d as int), fixed_mul(b as int, d as int));
            lemma_unit_mul(c as int, e as int);
            lemma_unit_mul(-c, f as int);
            lemma_unit_mul(-bd, e as int);
            lemma_unit_mul(a as int, f as int);
            lemma_unit_mul(bd, f as int);
            lemma_unit_mul(a as int, e as int);
            lemma_unit_mul(-b, c as int);
            lemma_unit_mul(ad, e as int);
            lemma_unit_mul(b as int, f as int);
            lemma_unit_mul(-ad, f as int);
            lemma_unit_mul(b as int, e as int);
            lemma_unit_mul(a as int, c as int);
        }
        let ad = fmul(a, d);
        let bd = fmul(b, d);
        let mut ret_mat = Mat4::identity();
        ret_mat.a1 = fmul(c, e);
        ret_mat.a2 = fmul(-c, f);
        ret_mat.a3 = -d;
        ret_mat.b1 = fmul(-bd, e) + fmul(a, f);
        ret_mat.b2 = fmul(bd, f) + fmul(a, e);
        ret_mat.b3 = fmul(-b, c);
        ret_mat.c1 = fmul(ad, e) + fmul(b, f);
        ret_mat.c2 = fmul(-ad, f) + fmul(b, e);
        ret_mat.c3 = fmul(a, c);
        ret_mat
    }

    /// The perspective projection with half the vertical field of view given by
    /// `half_fovy`, the width-to-height ratio `aspect`, and the near and far planes.
    pub fn perspective(half_fovy: Angle, aspect: i32, z_near: i32, z_far: i32) -> (r: Mat4)
        requires
            Mat4::perspective_defined(half_fovy, aspect as int, z_near as int, z_far as int),
        ensures
            r == Mat4::perspective_spec(half_fovy, aspect as int, z_near as int, z_far as int),
    {
        let tan = fdiv(half_fovy.sin, half_fovy.cos as i64);
        let right = fmul(z_near, tan);
        let top = fmul(right, aspect);
        Mat4::frustrum(-right, right, -top, top, z_near, z_far)
    }

    fn frustrum(bottom: i32, top: i32, left: i32, right: i32, near_val: i32, far_val: i32) -> (r:
        Mat4)
        requires
            Mat4::frustum_defined(
                bottom as int,
                top as int,
                left as int,
                right as int,
                near_val as int,
                far_val as int,
            ),
        ensures
            r == Mat4::frustum(
                bottom as int,
                top as int,
                left as int,
                right as int,
                near_val as int,
                far_val as int,
            ),
    {
        let width = (right as i64) - (left as i64);
        let height = (top as i64) - (bottom as i64);
        let depth = (far_val as i64) - (near_val as i64);
        Mat4 {
            a1: fdiv(2 * near_val, width),
            a2: 0,
            a3: 0,
            a4: 0,
            b1: 0,
            b2: fdiv(2 * near_val, height),
            b3: 0,
            b4: 0,
            c1: fdiv(right + left, width),
            c2: fdiv(top + bottom, height),
            c3: -fdiv(far_val + near_val, depth),
            c4: -ONE,
            d1: 0,
            d2: 0,
            d3: -fdiv(fmul(2 * far_val, near_val), depth),
            d4: 0,
        }
    }

    /// The view matrix of an eye at `eye_position` looking at `center`, or `None`
    /// where `look_at` is not defined.
    pub fn try_look_at(eye_position: &Vec3, center: &Vec3, up_vector: &Vec3) -> (r: Option<Mat4>)
        ensures
            r == (if Mat4::look_at_defined(*eye_position, *center, *up_vector) {
                Some(Mat4::look_at_spec(*eye_position, *center, *up_vector))
            } else {
                None
            }),
    {
        let eye = *eye_position;
        let dx = (center.x as i64) - (eye.x as i64);
        let dy = (center.y as i64) - (eye.y as i64);
        let dz = (center.z as i64) - (eye.z as i64);
        if !(fits_i32(dx) && fits_i32(dy) && fits_i32(dz)) {
            return None;
        }
        let mut forward = center.sub_vec(&eye);
        if forward.x == 0 && forward.y == 0 && forward.z == 0 {
            return None;
        }
        forward.normalize();
        let sx = fmul_wide(forward.y, up_vector.z) - fmul_wide(forward.z, up_vector.y);
        let sy = fmul_wide(forward.z, up_vector.x) - fmul_wide(forward.x, up_vector.z);
        let sz = fmul_wide(forward.x, up_vector.y) - fmul_wide(forward.y, up_vector.x);
        if !(fits_i32(sx) && fits_i32(sy) && fits_i32(sz)) {
            return None;
        }
        let mut side = forward.cross_product(up_vector);
        if side.x == 0 && side.y == 0 && side.z == 0 {
            return None;
        }
        side.normalize();
        proof {
            lemma_unit_mul(side.y as int, forward.z as int);
            lemma_unit_mul(side.z as int, forward.y as int);
            lemma_unit_mul(side.z as int, forward.x as int);
            lemma_unit_mul(side.x as int, forward.z as int);
            lemma_unit_mul(side.x as int, forward.y as int);
            lemma_unit_mul(side.y as int, forward.x as int);
        }
        let up = side.cross_product(&forward);
        let d1 = -dot3_wide(&eye, &side);
        let d2 = -dot3_wide(&eye, &up);
        let d3 = dot3_wide(&eye, &forward);
        if !(fits_i32(d1) && fits_i32(d2) && fits_i32(d3)) {
            return None;
        }
        Some(
            Mat4 {
                a1: side.x,
                a2: up.x,
                a3: -forward.x,
                a4: 0,
                b1: side.y,
                b2: up.y,
                b3: -forward.y,
                b4: 0,
                c1: side.z,
                c2: up.z,
                c3: -forward.z,
                c4: 0,
                d1: d1 as i32,
                d2: d2 as i32,
                d3: d3 as i32,
                d4: ONE,
            },
        )
    }

    /// The view matrix of an eye at `eye_position` looking at `center`, with
    /// `up_vector` giving the upward direction.
    pub fn look_at(eye_position: &Vec3, center: &Vec3, up_vector: &Vec3) -> (r: Mat4)
        requires
            Mat4::look_at_defined(*eye_position, *center, *up_vector),
        ensures
            r == Mat4::look_at_spec(*eye_position, *center, *up_vector),
    {
        match Mat4::try_look_at(eye_position, center, up_vector) {
            Some(m) => m,
            None => Mat4::identity(),
        }
    }

    /// The matrix product `self · oth`.
    pub fn cross_product(&self, oth: &Mat4) -> (r: Mat4)
        requires
            Mat4::product_fits(*self, *oth),
        ensures
            r == Mat4::product(*self, *oth),
    {
        proof {
            reveal(Mat4::product_fits);
            reveal(Mat4::product);
            assert(in_range(Mat4::product_entry(*self, *oth, 0, 0)));
            assert(in_range(Mat4::product_entry(*self, *oth, 0, 1)));
            assert(in_range(Mat4::product_entry(*self, *oth, 0, 2)));
            assert(in_range(Mat4::product_entry(*self, *oth, 0, 3)));
            assert(in_range(Mat4::product_entry(*self, *oth, 1, 0)));
            assert(in_range(Mat4::product_entry(*self, *oth, 1, 1)));
            assert(in_range(Mat4::product_entry(*self, *oth, 1, 2)));
            assert(in_range(Mat4::product_entry(*self, *oth, 1, 3)));
            assert(in_range(Mat4::product_entry(*self, *oth, 2, 0)));
            assert(in_range(Mat4::product_entry(*self, *oth, 2, 1)));
            assert(in_range(Mat4::product_entry(*self, *oth, 2, 2)));
            assert(in_range(Mat4::product_entry(*self, *oth, 2, 3)));
            assert(in_range(Mat4::product_entry(*self, *oth, 3, 0)));
            assert(in_range(Mat4::product_entry(*self, *oth, 3, 1)));
            assert(in_range(Mat4::product_entry(*self, *oth, 3, 2)));
            assert(in_range(Mat4::product_entry(*self, *oth, 3, 3)));
        }
        Mat4 {
            a1: self.entry_wide(oth, 0, 0) as i32,
            a2: self.entry_wide(oth, 0, 1) as i32,
            a3: self.entry_wide(oth, 0, 2) as i32,
            a4: self.entry_wide(oth, 0, 3) as i32,
            b1: self.entry_wide(oth, 1, 0) as i32,
            b2: self.entry_wide(oth, 1, 1) as i32,
            b3: self.entry_wide(oth, 1, 2) as i32,
            b4: self.entry_wide(oth, 1, 3) as i32,
            c1: self.entry_wide(oth, 2, 0) as i32,
            c2: self.entry_wide(oth, 2, 1) as i32,
            c3: self.entry_wide(oth, 2, 2) as i32,
            c4: self.entry_wide(oth, 2, 3) as i32,
            d1: self.entry_wide(oth, 3, 0) as i32,
            d2: self.entry_wide(oth, 3, 1) as i32,
            d3: self.entry_wide(oth, 3, 2) as i32,
            d4: self.entry_wide(oth, 3, 3) as i32,
        }
    }

    /// The matrix product `self · oth`, or `None` where an entry is not representable.
    pub fn checked_product(&self, oth: &Mat4) -> (r: Option<Mat4>)
        ensures
            r == (if Mat4::product_fits(*self, *oth) {
                Some(Mat4::product(*self, *oth))
            } else {
                None
            }),
    {
        proof {
            reveal(Mat4::product_fits);
        }
        let mut c: usize = 0;
        while c < 4
            invariant
                c <= 4,
                forall|c2: int, r2: int|
                    0 <= c2 < c && 0 <= r2 < 4 ==> #[trigger] in_range(
                        Mat4::product_entry(*self, *oth, c2, r2),
                    ),
            decreases 4 - c,
        {
            let mut r: usize = 0;
            while r < 4
                invariant
                    c < 4,
                    r <= 4,
                    forall|c2: int, r2: int|
                        0 <= c2 < c && 0 <= r2 < 4 ==> #[trigger] in_range(
                            Mat4::product_entry(*self, *oth, c2, r2),
                        ),
                    forall|r2: int|
                        0 <= r2 < r ==> #[trigger] in_range(
                            Mat4::product_entry(*self, *oth, c as int, r2),
                        ),
                decreases 4 - r,
            {
                if !fits_i32(self.entry_wide(oth, c, r)) {
                    proof {
                        reveal(Mat4::product_fits);
                    }
                    return None;
                }
                r += 1;
            }
            c += 1;
        }
        Some(self.cross_product(oth))
    }

    /// The image `self · v` of a homogeneous vector.
    pub fn transform(&self, v: &Vec4) -> (r: Vec4)
        requires
            Mat4::apply_fits(*self, *v),
        ensures
            r == Mat4::apply(*self, *v),
    {
        proof {
            assert(in_range(dot4(self.row(0), *v)));
            assert(in_range(dot4(self.row(1), *v)));
            assert(in_range(dot4(self.row(2), *v)));
            assert(in_range(dot4(self.row(3), *v)));
        }
        Vec4 {
            x: dot4_wide(self.row_at(0), *v) as i32,
            y: dot4_wide(self.row_at(1), *v) as i32,
            z: dot4_wide(self.row_at(2), *v) as i32,
            w: dot4_wide(self.row_at(3), *v) as i32,
        }
    }
}

fn dot3_wide(a: &Vec3, b: &Vec3) -> (r: i64)
    ensures
        r == a.dot(*b),
        -0x2_0000_0000_0000 <= r <= 0x2_0000_0000_0000,
{
    fmul_wide(a.x, b.x) + fmul_wide(a.y, b.y) + fmul_wide(a.z, b.z)
}

proof fn lemma_mul_unit(x: int)
    ensures
        fixed_mul(65536, x) == x,
        fixed_mul(x, 65536) == x,
        fixed_mul(0, x) == 0,
        fixed_mul(x, 0) == 0,
{
    assert(65536 * x == x * 65536) by (nonlinear_arith);
    assert(0 * x == 0 && x * 0 == 0) by (nonlinear_arith);
}

/// The identity matrix is neutral for the matrix product on either side.
pub proof fn lemma_identity_neutral(m: Mat4)
    ensures
        Mat4::product_fits(Mat4::identity_spec(), m),
        Mat4::product(Mat4::identity_spec(), m) == m,
        Mat4::product_fits(m, Mat4::identity_spec()),
        Mat4::product(m, Mat4::identity_spec()) == m,
{
    reveal(Mat4::product_fits);
    reveal(Mat4::product);
    let i = Mat4::identity_spec();
    assert forall|c: int, r: int| 0 <= c < 4 && 0 <= r < 4 implies Mat4::product_entry(i, m, c, r)
        == m.col(c).row_at(r) && Mat4::product_entry(m, i, c, r) == m.col(c).row_at(r) by {
        let (u, v) = (m.row(r), m.col(c));
        lemma_mul_unit(v.x as int);
        lemma_mul_unit(v.y as int);
        lemma_mul_unit(v.z as int);
        lemma_mul_unit(v.w as int);
        lemma_mul_unit(u.x as int);
        lemma_mul_unit(u.y as int);
        lemma_mul_unit(u.z as int);
        lemma_mul_unit(u.w as int);
    }
    assert forall|c: int, r: int| 0 <= c < 4 && 0 <= r < 4 implies #[trigger] in_range(
        Mat4::product_entry(i, m, c, r),
    ) && in_range(Mat4::product_entry(m, i, c, r)) by {
        assert(in_range(m.col(c).row_at(r)));
    }
}

/// A translation carries the origin to its offset.
pub proof fn lemma_translate_origin(x: i32, y: i32, z: i32)
    ensures
        Mat4::apply_fits(Mat4::translation(x, y, z), Vec4 { x: 0, y: 0, z: 0, w: ONE }),
        Mat4::apply(Mat4::translation(x, y, z), Vec4 { x: 0, y: 0, z: 0, w: ONE }) == (Vec4 {
            x,
            y,
            z,
            w: ONE,
        }),
{
    lemma_mul_unit(x as int);
    lemma_mul_unit(y as int);
    lemma_mul_unit(z as int);
    lemma_mul_unit(0);
    lemma_mul_unit(65536);
}

/// A scaling carries the point `(1, 1, 1)` to its factors.
pub proof fn lemma_scale_unit_point(x: i32, y: i32, z: i32)
    ensures
        Mat4::apply_fits(Mat4::scaling(x, y, z), Vec4 { x: ONE, y: ONE, z: ONE, w: ONE }),
        Mat4::apply(Mat4::scaling(x, y, z), Vec4 { x: ONE, y: ONE, z: ONE, w: ONE }) == (Vec4 {
            x,
            y,
            z,
            w: ONE,
        }),
{
    lemma_mul_unit(x as int);
    lemma_mul_unit(y as int);
    lemma_mul_unit(z as int);
    lemma_mul_unit(65536);
}

proof fn lemma_mul_neg_comm(a: int, b: int)
    ensures
        fixed_mul(a, b) == fixed_mul(b, a),
        fixed_mul(-a, b) == -fixed_mul(a, b),
{
    assert(a * b == b * a) by (nonlinear_arith);
    assert((-a) * b == -(a * b)) by (nonlinear_arith);
}

/// A view matrix carries the eye to the origin, so its inverse carries the
/// origin back to the eye.
pub proof fn lemma_look_at_eye_to_origin(eye: Vec3, center: Vec3, up: Vec3)
    requires
        Mat4::look_at_defined(eye, center, up),
    ensures
        Mat4::apply_fits(
            Mat4::look_at_spec(eye, center, up),
            Vec4 { x: eye.x, y: eye.y, z: eye.z, w: ONE },
        ),
        Mat4::apply(Mat4::look_at_spec(eye, center, up), Vec4 { x: eye.x, y: eye.y, z: eye.z, w: ONE })
            == (Vec4 { x: 0, y: 0, z: 0, w: ONE }),
{
    let f = Mat4::look_forward(eye, center);
    let s = Mat4::look_side(eye, center, up);
    let u = Mat4::look_up(eye, center, up);
    let m = Mat4::look_at_spec(eye, center, up);
    let p = Vec4 { x: eye.x, y: eye.y, z: eye.z, w: ONE };
    crate::vec::lemma_normalized_bounds(center.minus(eye));
    lemma_mul_neg_comm(s.x as int, eye.x as int);
    lemma_mul_neg_comm(s.y as int, eye.y as int);
    lemma_mul_neg_comm(s.z as int, eye.z as int);
    lemma_mul_neg_comm(u.x as int, eye.x as int);
    lemma_mul_neg_comm(u.y as int, eye.y as int);
    lemma_mul_neg_comm(u.z as int, eye.z as int);
    lemma_mul_neg_comm(f.x as int, eye.x as int);
    lemma_mul_neg_comm(f.y as int, eye.y as int);
    lemma_mul_neg_comm(f.z as int, eye.z as int);
    lemma_mul_unit(m.d1 as int);
    lemma_mul_unit(m.d2 as int);
    lemma_mul_unit(m.d3 as int);
    lemma_mul_unit(eye.x as int);
    lemma_mul_unit(eye.y as int);
    lemma_mul_unit(eye.z as int);
    lemma_mul_unit(65536);
    assert(dot4(m.row(0), p) == 0);
    assert(dot4(m.row(1), p) == 0);
    assert(dot4(m.row(2), p) == 0);
    assert(dot4(m.row(3), p) == 65536);
}

} // verus!
