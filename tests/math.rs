use rustedcraft::fixed::{fdiv, fmul, isqrt_u64, ONE};
use rustedcraft::mat::{Angle, Mat4};
use rustedcraft::vec::{Vec2, Vec3, Vec4};

fn sample_matrix() -> Mat4 {
    Mat4 {
        a1: 3 * ONE,
        a2: -ONE / 2,
        a3: 7,
        a4: 0,
        b1: 12345,
        b2: ONE,
        b3: -2 * ONE,
        b4: 99,
        c1: -4 * ONE,
        c2: 777,
        c3: ONE / 3,
        c4: -1,
        d1: 10 * ONE,
        d2: -3 * ONE,
        d3: 2 * ONE + 5,
        d4: ONE,
    }
}

#[test]
fn fixed_product_rounds_toward_zero() {
    assert_eq!(fmul(3 * ONE, ONE / 2), 3 * ONE / 2);
    assert_eq!(fmul(3, 3), 0);
    assert_eq!(fmul(-3, 3), 0);
    assert_eq!(fmul(-ONE, 5), -5);
    assert_eq!(fmul(100000, 100000), 152587);
    assert_eq!(fmul(-100000, 100000), -152587);
}

#[test]
fn fixed_quotient_rounds_toward_zero() {
    assert_eq!(fdiv(3 * ONE, (5 * ONE) as i64), 39321);
    assert_eq!(fdiv(-3 * ONE, (5 * ONE) as i64), -39321);
    assert_eq!(fdiv(ONE, (2 * ONE) as i64), ONE / 2);
}

#[test]
fn integer_square_root() {
    assert_eq!(isqrt_u64(0), 0);
    assert_eq!(isqrt_u64(24), 4);
    assert_eq!(isqrt_u64(25), 5);
    assert_eq!(isqrt_u64(u64::MAX), 0xffff_ffff);
}

#[test]
fn vec3_normalize_divides_by_length() {
    let mut v = Vec3::new(3 * ONE, 4 * ONE, 0);
    v.normalize();
    assert_eq!(v, Vec3::new(39321, 52428, 0));
    let mut w = Vec3::new(0, 0, -5 * ONE);
    w.normalize();
    assert_eq!(w, Vec3::new(0, 0, -ONE));
}

#[test]
fn vec2_normalize_divides_by_length() {
    let mut v = Vec2::new(-3 * ONE, 4 * ONE);
    v.normalize();
    assert_eq!(v, Vec2::new(-39321, 52428));
}

#[test]
fn vec3_products_and_sums() {
    let a = Vec3::new(ONE, 2 * ONE, 3 * ONE);
    let b = Vec3::new(4 * ONE, 5 * ONE, 6 * ONE);
    assert_eq!(a.cross_product(&b), Vec3::new(-3 * ONE, 6 * ONE, -3 * ONE));
    assert_eq!(b.cross_product(&a), Vec3::new(3 * ONE, -6 * ONE, 3 * ONE));
    assert_eq!(a.dot_product(&b), 32 * ONE);
    assert_eq!(a.add_vec(&b), Vec3::new(5 * ONE, 7 * ONE, 9 * ONE));
    assert_eq!(a.sub_vec(&b), Vec3::new(-3 * ONE, -3 * ONE, -3 * ONE));
    assert_eq!(a.scalar_product(ONE / 2), Vec3::new(ONE / 2, ONE, 3 * ONE / 2));
}

#[test]
fn vec2_products_and_sums() {
    let a = Vec2::new(ONE, -2 * ONE);
    let b = Vec2::new(3 * ONE, ONE / 2);
    assert_eq!(a.dot_product(&b), 2 * ONE);
    assert_eq!(a.add_vec(&b), Vec2::new(4 * ONE, -3 * ONE / 2));
    assert_eq!(a.sub_vec(&b), Vec2::new(-2 * ONE, -5 * ONE / 2));
    assert_eq!(a.scalar_product(3 * ONE), Vec2::new(3 * ONE, -6 * ONE));
}

#[test]
fn identity_is_neutral() {
    let m = sample_matrix();
    let i = Mat4::identity();
    assert_eq!(i.cross_product(&m), m);
    assert_eq!(m.cross_product(&i), m);
}

#[test]
fn product_is_not_commutative() {
    let t = Mat4::translate(ONE, 0, 0);
    let s = Mat4::scale(2 * ONE, 2 * ONE, 2 * ONE);
    let ts = t.cross_product(&s);
    let st = s.cross_product(&t);
    assert_ne!(ts, st);
    assert_eq!(ts.d1, ONE);
    assert_eq!(st.d1, 2 * ONE);
}

#[test]
fn checked_product_reports_overflow() {
    let big = Mat4::scale(30000 * ONE, ONE, ONE);
    assert_eq!(big.checked_product(&big), None);
    let m = sample_matrix();
    assert_eq!(m.checked_product(&Mat4::identity()), Some(m));
}

#[test]
fn translate_moves_origin() {
    let t = Mat4::translate(3 * ONE / 2, -2 * ONE, 3 * ONE);
    let p = t.transform(&Vec4::new(0, 0, 0, ONE));
    assert_eq!(p, Vec4::new(3 * ONE / 2, -2 * ONE, 3 * ONE, ONE));
}

#[test]
fn scale_scales_unit_point() {
    let s = Mat4::scale(2 * ONE, 3 * ONE, ONE / 2);
    let p = s.transform(&Vec4::new(ONE, ONE, ONE, ONE));
    assert_eq!(p, Vec4::new(2 * ONE, 3 * ONE, ONE / 2, ONE));
}

#[test]
fn look_at_carries_eye_to_origin() {
    let eye = Vec3::new(ONE, 2 * ONE, 3 * ONE);
    let up = Vec3::new(0, ONE, 0);
    for forward in [Vec3::new(0, 0, -ONE), Vec3::new(ONE, 0, 0), Vec3::new(3 * ONE, 0, 4 * ONE)] {
        let center = eye.add_vec(&forward);
        let view = Mat4::look_at(&eye, &center, &up);
        let p = view.transform(&Vec4::new(eye.x, eye.y, eye.z, ONE));
        assert_eq!(p, Vec4::new(0, 0, 0, ONE));
    }
}

#[test]
fn look_at_builds_orthonormal_frame() {
    let eye = Vec3::new(0, 0, 5 * ONE);
    let view = Mat4::look_at(&eye, &Vec3::new(0, 0, 0), &Vec3::new(0, ONE, 0));
    assert_eq!((view.a1, view.b1, view.c1), (ONE, 0, 0));
    assert_eq!((view.a2, view.b2, view.c2), (0, ONE, 0));
    assert_eq!((view.a3, view.b3, view.c3), (0, 0, ONE));
    assert_eq!((view.d1, view.d2, view.d3, view.d4), (0, 0, -5 * ONE, ONE));
}

#[test]
fn look_at_refuses_view_parallel_to_up() {
    let eye = Vec3::new(0, 0, 0);
    let up = Vec3::new(0, ONE, 0);
    assert_eq!(Mat4::try_look_at(&eye, &Vec3::new(0, 3 * ONE, 0), &up), None);
    assert_eq!(Mat4::try_look_at(&eye, &eye, &up), None);
    assert!(Mat4::try_look_at(&eye, &Vec3::new(ONE, 0, 0), &up).is_some());
}

#[test]
fn rotate_quarter_turn_about_x() {
    let quarter = Angle { cos: 0, sin: ONE };
    let none = Angle { cos: ONE, sin: 0 };
    let r = Mat4::rotate(quarter, none, none);
    assert_eq!((r.a1, r.a2, r.a3, r.a4), (ONE, 0, 0, 0));
    assert_eq!((r.b1, r.b2, r.b3, r.b4), (0, 0, -ONE, 0));
    assert_eq!((r.c1, r.c2, r.c3, r.c4), (0, ONE, 0, 0));
    assert_eq!((r.d1, r.d2, r.d3, r.d4), (0, 0, 0, ONE));
    assert_eq!(Mat4::rotate(none, none, none), Mat4::identity());
}

#[test]
fn perspective_standard_projection() {
    let p = Mat4::perspective(Angle { cos: 60548, sin: 25080 }, 87381, 6554, 6553600);
    assert_eq!(p.a1, 118718);
    assert_eq!(p.b2, 158261);
    assert_eq!(p.c3, -65667);
    assert_eq!(p.c4, -ONE);
    assert_eq!(p.d3, -13121);
    assert_eq!((p.a2, p.c1, p.c2, p.d4), (0, 0, 0, 0));
}
