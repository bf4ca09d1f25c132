//! The free-look camera controller.
//!
//! A frame has two steps. `turn` integrates the pointer offset from the
//! window's center into yaw and pitch. The caller then derives the unit
//! forward and right directions from the new angles (the trigonometry lies
//! outside this fixed-point core) and hands them to `update`, which moves the
//! camera for each movement key pressed and recomputes the view.
use vstd::prelude::*;
use crate::config::{Config, PITCH_LIMIT, START_YAW};
use crate::fixed::{
    clamp, fixed_mul, fmul_wide, in_range, saturate, saturate_i128, unscale_i128, HALF,
    ONE,
};
use crate::input::{Action, InputDatas, Key};
use crate::mat::Mat4;
use crate::vec::{Vec2, Vec3};

verus! {

/// The unit directions of a camera orientation.
#[derive(Clone, Copy, Debug, PartialEq, Eq, Structural)]
pub struct Heading {
    pub forward: Vec3,
    pub right: Vec3,
}

#[derive(Clone, Copy, Debug, PartialEq, Eq, Structural)]
pub struct Camera {
    pub mat_projection: Mat4,
    pub mat_view: Mat4,
    pub position: Vec3,
    /// Yaw, in radians.
    pub h_angle: i32,
    /// Pitch, in radians.
    pub v_angle: i32,
    pub window_size: Vec2,
    /// Movement speed, in units per second.
    pub speed: i32,
    /// Turn rate, in radians per second per pixel of pointer offset.
    pub mouse_speed: i32,
}

/// The world's up direction.
pub open spec fn world_up() -> Vec3 {
    Vec3 { x: 0, y: ONE, z: 0 }
}

/// The angle turned in one frame for a pointer offset from the center.
pub open spec fn turn_amount(sensitivity: int, delta_time: int, offset: int) -> int {
    fixed_mul(fixed_mul(sensitivity, delta_time), offset)
}

/// The distance moved along one component of a direction in one frame.
pub open spec fn step_along(d: int, delta_time: int, speed: int) -> int {
    fixed_mul(fixed_mul(d, delta_time), speed)
}

/// `c` moved by `s` forward or backward, saturating at the ends of the range.
pub open spec fn shifted(c: int, s: int, along: bool) -> int {
    saturate(
        if along {
            c + s
        } else {
            c - s
        },
    )
}

/// `p` moved by one frame's step along `v` or against it.
pub open spec fn move_by(p: Vec3, v: Vec3, delta_time: int, speed: int, along: bool) -> Vec3 {
    Vec3 {
        x: shifted(p.x as int, step_along(v.x as int, delta_time, speed), along) as i32,
        y: shifted(p.y as int, step_along(v.y as int, delta_time, speed), along) as i32,
        z: shifted(p.z as int, step_along(v.z as int, delta_time, speed), along) as i32,
    }
}

/// The effect of one key event: `W`/`S` move along/against `forward`, `D`/`A`
/// along/against `right`, when pressed; anything else leaves `p` alone.
pub open spec fn key_step(
    p: Vec3,
    event: (Action, Key),
    forward: Vec3,
    right: Vec3,
    delta_time: int,
    speed: int,
) -> Vec3 {
    if event.0 == Action::Press {
        if event.1 == Key::W {
            move_by(p, forward, delta_time, speed, true)
        } else if event.1 == Key::S {
            move_by(p, forward, delta_time, speed, false)
        } else if event.1 == Key::D {
            move_by(p, right, delta_time, speed, true)
        } else if event.1 == Key::A {
            move_by(p, right, delta_time, speed, false)
        } else {
            p
        }
    } else {
        p
    }
}

/// `p` after the key events in order; each applies its full step.
pub open spec fn moved(
    p: Vec3,
    keys: Seq<(Action, Key)>,
    forward: Vec3,
    right: Vec3,
    delta_time: int,
    speed: int,
) -> Vec3
    decreases keys.len(),
{
    if keys.len() == 0 {
        p
    } else {
        key_step(
            moved(p, keys.drop_last(), forward, right, delta_time, speed),
            keys.last(),
            forward,
            right,
            delta_time,
            speed,
        )
    }
}

/// `p` after `n` frames with the same key events.
pub open spec fn moved_frames(
    p: Vec3,
    keys: Seq<(Action, Key)>,
    forward: Vec3,
    right: Vec3,
    delta_time: int,
    speed: int,
    n: nat,
) -> Vec3
    decreases n,
{
    if n == 0 {
        p
    } else {
        moved(
            moved_frames(p, keys, forward, right, delta_time, speed, (n - 1) as nat),
            keys,
            forward,
            right,
            delta_time,
            speed,
        )
    }
}

/// The view from `position` along `forward`, or `fallback` where it is not defined.
pub open spec fn view_toward(position: Vec3, forward: Vec3, fallback: Mat4) -> Mat4 {
    if position.add_fits(forward) && Mat4::look_at_defined(
        position,
        position.plus(forward),
        world_up(),
    ) {
        Mat4::look_at_spec(position, position.plus(forward), world_up())
    } else {
        fallback
    }
}

impl Camera {
    /// The pointer position at the window's center.
    pub open spec fn center(self) -> Vec2 {
        Vec2 {
            x: fixed_mul(self.window_size.x as int, HALF as int) as i32,
            y: fixed_mul(self.window_size.y as int, HALF as int) as i32,
        }
    }

    /// The camera after turning for the pointer at `mouse` over `delta_time`:
    /// the yaw saturates at the ends of the range, the pitch stays within the limit.
    pub open spec fn turned(self, mouse: Vec2, delta_time: i32) -> Camera {
        let c = self.center();
        Camera {
            h_angle: saturate(
                self.h_angle + turn_amount(
                    self.mouse_speed as int,
                    delta_time as int,
                    c.x - mouse.x,
                ),
            ) as i32,
            v_angle: clamp(
                self.v_angle + turn_amount(self.mouse_speed as int, delta_time as int, c.y - mouse.y),
                -PITCH_LIMIT,
                PITCH_LIMIT as int,
            ) as i32,
            ..self
        }
    }

    /// The camera after moving for `keys` along `heading` over `delta_time`,
    /// with the view recomputed from the new position.
    pub open spec fn stepped(self, keys: Seq<(Action, Key)>, delta_time: i32, heading: Heading) -> Camera {
        let p = moved(
            self.position,
            keys,
            heading.forward,
            heading.right,
            delta_time as int,
            self.speed as int,
        );
        Camera { position: p, mat_view: view_toward(p, heading.forward, self.mat_view), ..self }
    }

    pub open spec fn initial(config: Config, window_size: Vec2) -> Camera {
        let eye = Vec3 { x: 0, y: 0, z: 327680 };
        Camera {
            mat_projection: Mat4::perspective_spec(
                config.half_fovy,
                config.aspect as int,
                config.z_near as int,
                config.z_far as int,
            ),
            mat_view: Mat4::look_at_spec(eye, Vec3 { x: 0, y: 0, z: 0 }, world_up()),
            position: eye,
            h_angle: START_YAW,
            v_angle: 0,
            window_size,
            speed: config.speed,
            mouse_speed: config.mouse_sensitivity,
        }
    }

    /// A camera at `(0, 0, 5)` looking at the origin, with the standard configuration.
    pub fn new(window_size: Vec2) -> (r: Camera)
        ensures
            r == Camera::initial(Config::standard_spec(), window_size),
    {
        let config = Config::standard();
        proof {
            lemma_standard_perspective_defined();
        }
        Camera::with_config(&config, window_size)
    }

    /// A camera at `(0, 0, 5)` looking at the origin.
    pub fn with_config(config: &Config, window_size: Vec2) -> (r: Camera)
        requires
            Mat4::perspective_defined(
                config.half_fovy,
                config.aspect as int,
                config.z_near as int,
                config.z_far as int,
            ),
        ensures
            r == Camera::initial(*config, window_size),
    {
        let eye = Vec3::new(0, 0, 5 * ONE);
        let target = Vec3::new(0, 0, 0);
        let up = Vec3::new(0, ONE, 0);
        proof {
            lemma_initial_view_defined();
        }
        Camera {
            mat_projection: Mat4::perspective(
                config.half_fovy,
                config.aspect,
                config.z_near,
                config.z_far,
            ),
            mat_view: Mat4::look_at(&eye, &target, &up),
            position: eye,
            h_angle: START_YAW,
            v_angle: 0,
            window_size,
            speed: config.speed,
            mouse_speed: config.mouse_sensitivity,
        }
    }

    /// Turns by the pointer's offset from the window's center, scaled by the
    /// turn rate and the elapsed time.
    pub fn turn(&mut self, mouse_position: &Vec2, delta_time: i32)
        ensures
            *final(self) == old(self).turned(*mouse_position, delta_time),
    {
        let k = fmul_wide(self.mouse_speed, delta_time) as i128;
        let cx = fmul_wide(self.window_size.x, HALF);
        let cy = fmul_wide(self.window_size.y, HALF);
        proof {
            assert(-32768 * 65536 <= cx <= 32768 * 65536) by {
                crate::fixed::lemma_half_bound(self.window_size.x);
            }
            assert(-32768 * 65536 <= cy <= 32768 * 65536) by {
                crate::fixed::lemma_half_bound(self.window_size.y);
            }
        }
        let ox = (cx - mouse_position.x as i64) as i128;
        let oy = (cy - mouse_position.y as i64) as i128;
        proof {
            lemma_wide_product(k as int, ox as int);
            lemma_wide_product(k as int, oy as int);
        }
        let dh = unscale_i128(k * ox);
        let dv = unscale_i128(k * oy);
        proof {
            lemma_wide_unscale(k * ox);
            lemma_wide_unscale(k * oy);
        }
        self.h_angle = saturate_i128(self.h_angle as i128 + dh);
        let v = saturate_i128(self.v_angle as i128 + dv);
        let pitch = if (self.v_angle as i128 + dv) < -(PITCH_LIMIT as i128) {
            -PITCH_LIMIT
        } else if (self.v_angle as i128 + dv) > PITCH_LIMIT as i128 {
            PITCH_LIMIT
        } else {
            v
        };
        self.v_angle = pitch;
    }

    /// Moves for each movement key pressed in `input_datas`, in order, along
    /// `dir` (forward) or `right`, by `speed · delta_time` each.
    pub fn move_along(&mut self, input_datas: &InputDatas, dir: &Vec3, right: &Vec3, delta_time: i32)
        ensures
            *final(self) == (Camera {
                position: moved(
                    old(self).position,
                    input_datas.keys@,
                    *dir,
                    *right,
                    delta_time as int,
                    old(self).speed as int,
                ),
                ..*old(self)
            }),
    {
        let keys = &input_datas.keys;
        let ghost start = *self;
        let mut i: usize = 0;
        while i < keys.len()
            invariant
                i <= keys@.len(),
                *self == (Camera {
                    position: moved(
                        start.position,
                        keys@.subrange(0, i as int),
                        *dir,
                        *right,
                        delta_time as int,
                        start.speed as int,
                    ),
                    ..start
                }),
            decreases keys@.len() - i,
        {
            let event = keys[i];
            let p = self.position;
            let speed = self.speed;
            self.position = if event.0 == Action::Press {
                if event.1 == Key::W {
                    step_position(&p, dir, delta_time, speed, true)
                } else if event.1 == Key::S {
                    step_position(&p, dir, delta_time, speed, false)
                } else if event.1 == Key::D {
                    step_position(&p, right, delta_time, speed, true)
                } else if event.1 == Key::A {
                    step_position(&p, right, delta_time, speed, false)
                } else {
                    p
                }
            } else {
                p
            };
            proof {
                let next = keys@.subrange(0, i + 1);
                assert(next.drop_last() =~= keys@.subrange(0, i as int));
                assert(next.last() == keys@[i as int]);
            }
            i += 1;
        }
        proof {
            assert(keys@.subrange(0, keys@.len() as int) =~= keys@);
        }
    }

    /// Moves for the key events along `heading` and recomputes the view along
    /// its forward direction with the world's up direction. Where that view is
    /// not defined the previous one is kept.
    pub fn update(&mut self, input_datas: &InputDatas, delta_time: i32, heading: &Heading)
        ensures
            *final(self) == old(self).stepped(input_datas.keys@, delta_time, *heading),
    {
        self.move_along(input_datas, &heading.forward, &heading.right, delta_time);
        let p = self.position;
        let f = heading.forward;
        let tx = p.x as i64 + f.x as i64;
        let ty = p.y as i64 + f.y as i64;
        let tz = p.z as i64 + f.z as i64;
        if crate::mat::fits_i32(tx) && crate::mat::fits_i32(ty) && crate::mat::fits_i32(tz) {
            let target = p.add_vec(&f);
            let up = Vec3::new(0, ONE, 0);
            match Mat4::try_look_at(&p, &target, &up) {
                Some(view) => {
                    self.mat_view = view;
                },
                None => {},
            }
        }
    }

    /// The combined view-projection matrix `projection · view`, or `None`
    /// where an entry is not representable.
    pub fn get_mat(&self) -> (r: Option<Mat4>)
        ensures
            r == (if Mat4::product_fits(self.mat_projection, self.mat_view) {
                Some(Mat4::product(self.mat_projection, self.mat_view))
            } else {
                None
            }),
    {
        self.mat_projection.checked_product(&self.mat_view)
    }
}

/// One component of a frame's step, saturated into range.
fn step_component(p: i32, d: i32, delta_time: i32, speed: i32, forward: bool) -> (r: i32)
    ensures
        r == shifted(p as int, step_along(d as int, delta_time as int, speed as int), forward),
{
    let a = fmul_wide(d, delta_time) as i128;
    proof {
        lemma_wide_product(a as int, speed as int);
    }
    let s = unscale_i128(a * speed as i128);
    proof {
        lemma_wide_unscale(a * speed);
    }
    if forward {
        saturate_i128(p as i128 + s)
    } else {
        saturate_i128(p as i128 - s)
    }
}

fn step_position(p: &Vec3, v: &Vec3, delta_time: i32, speed: i32, forward: bool) -> (r: Vec3)
    ensures
        r == move_by(*p, *v, delta_time as int, speed as int, forward),
{
    Vec3 {
        x: step_component(p.x, v.x, delta_time, speed, forward),
        y: step_component(p.y, v.y, delta_time, speed, forward),
        z: step_component(p.z, v.z, delta_time, speed, forward),
    }
}

/// A frame with the pointer at the window's center and no key events leaves
/// the angles (within the pitch limit) and the position where they were.
pub proof fn lemma_idle_frame(c: Camera, delta_time: i32, heading: Heading)
    requires
        -PITCH_LIMIT <= c.v_angle <= PITCH_LIMIT,
    ensures
        c.turned(c.center(), delta_time).h_angle == c.h_angle,
        c.turned(c.center(), delta_time).v_angle == c.v_angle,
        c.turned(c.center(), delta_time).position == c.position,
        c.turned(c.center(), delta_time).stepped(Seq::empty(), delta_time, heading).position
            == c.position,
{
    let k = fixed_mul(c.mouse_speed as int, delta_time as int);
    assert(k * 0 == 0) by (nonlinear_arith);
}

/// Any number of frames without key events leaves the position where it was.
pub proof fn lemma_idle_frames(
    p: Vec3,
    forward: Vec3,
    right: Vec3,
    delta_time: int,
    speed: int,
    n: nat,
)
    ensures
        moved_frames(p, Seq::empty(), forward, right, delta_time, speed, n) == p,
    decreases n,
{
    if n > 0 {
        lemma_idle_frames(p, forward, right, delta_time, speed, (n - 1) as nat);
    }
}

/// One frame's displacement of a component pressing the forward key alone.
pub open spec fn forward_step(d: i32, delta_time: i32, speed: i32) -> int {
    step_along(d as int, delta_time as int, speed as int)
}

/// Holding the forward key for `n` frames with the same elapsed time and
/// heading moves the position by `n` times one frame's step along the forward
/// direction, while no component leaves the representable range.
pub proof fn lemma_forward_accumulates(
    p: Vec3,
    forward: Vec3,
    right: Vec3,
    delta_time: i32,
    speed: i32,
    n: nat,
)
    requires
        in_range(p.x + n * forward_step(forward.x, delta_time, speed)),
        in_range(p.y + n * forward_step(forward.y, delta_time, speed)),
        in_range(p.z + n * forward_step(forward.z, delta_time, speed)),
    ensures
        moved_frames(
            p,
            seq![(Action::Press, Key::W)],
            forward,
            right,
            delta_time as int,
            speed as int,
            n,
        ) == (Vec3 {
            x: (p.x + n * forward_step(forward.x, delta_time, speed)) as i32,
            y: (p.y + n * forward_step(forward.y, delta_time, speed)) as i32,
            z: (p.z + n * forward_step(forward.z, delta_time, speed)) as i32,
        }),
    decreases n,
{
    let keys = seq![(Action::Press, Key::W)];
    let (sx, sy, sz) = (
        forward_step(forward.x, delta_time, speed),
        forward_step(forward.y, delta_time, speed),
        forward_step(forward.z, delta_time, speed),
    );
    if n == 0 {
        assert(0 * sx == 0 && 0 * sy == 0 && 0 * sz == 0) by (nonlinear_arith);
    } else {
        let m = (n - 1) as nat;
        assert(n * sx == m * sx + sx && n * sy == m * sy + sy && n * sz == m * sz + sz) by (
        nonlinear_arith)
            requires
                m == n - 1,
        ;
        // a component between its start and its end stays in range
        assert(in_range(p.x + m * sx) && in_range(p.y + m * sy) && in_range(p.z + m * sz)) by {
            assert(m * sx <= 0 || m * sx <= n * sx) by (nonlinear_arith)
                requires
                    m == n - 1,
                    n * sx == m * sx + sx,
            ;
            assert(m * sy <= 0 || m * sy <= n * sy) by (nonlinear_arith)
                requires
                    m == n - 1,
                    n * sy == m * sy + sy,
            ;
            assert(m * sz <= 0 || m * sz <= n * sz) by (nonlinear_arith)
                requires
                    m == n - 1,
                    n * sz == m * sz + sz,
            ;
            assert(m * sx >= 0 || m * sx >= n * sx) by (nonlinear_arith)
                requires
                    m == n - 1,
                    n * sx == m * sx + sx,
            ;
            assert(m * sy >= 0 || m * sy >= n * sy) by (nonlinear_arith)
                requires
                    m == n - 1,
                    n * sy == m * sy + sy,
            ;
            assert(m * sz >= 0 || m * sz >= n * sz) by (nonlinear_arith)
                requires
                    m == n - 1,
                    n * sz == m * sz + sz,
            ;
        }
        lemma_forward_accumulates(p, forward, right, delta_time, speed, m);
        let q = moved_frames(p, keys, forward, right, delta_time as int, speed as int, m);
        assert(keys.drop_last() =~= Seq::<(Action, Key)>::empty());
        assert(keys.last() == (Action::Press, Key::W));
        assert(moved(q, keys.drop_last(), forward, right, delta_time as int, speed as int) == q);
        assert(moved(q, keys, forward, right, delta_time as int, speed as int) == move_by(
            q,
            forward,
            delta_time as int,
            speed as int,
            true,
        ));
    }
}

proof fn lemma_wide_product(a: int, b: int)
    requires
        -0x1_0000_0000_0000 <= a <= 0x1_0000_0000_0000,
        -0x1_0000_0000_0000 <= b <= 0x1_0000_0000_0000,
    ensures
        -0x1_0000_0000_0000_0000_0000_0000 <= a * b <= 0x1_0000_0000_0000_0000_0000_0000,
{
    assert(-0x1_0000_0000_0000_0000_0000_0000 <= a * b <= 0x1_0000_0000_0000_0000_0000_0000)
        by (nonlinear_arith)
        requires
            -0x1_0000_0000_0000 <= a <= 0x1_0000_0000_0000,
            -0x1_0000_0000_0000 <= b <= 0x1_0000_0000_0000,
    ;
}

proof fn lemma_wide_unscale(v: int)
    requires
        -0x1_0000_0000_0000_0000_0000_0000 <= v <= 0x1_0000_0000_0000_0000_0000_0000,
    ensures
        -0x1_0000_0000_0000_0000_0000 <= crate::fixed::unscale(v) <= 0x1_0000_0000_0000_0000_0000,
{
}

proof fn lemma_standard_perspective_defined()
    ensures
        Mat4::perspective_defined(
            Config::standard_spec().half_fovy,
            Config::standard_spec().aspect as int,
            Config::standard_spec().z_near as int,
            Config::standard_spec().z_far as int,
        ),
{
}

proof fn lemma_initial_view_defined()
    ensures
        Mat4::look_at_defined(
            Vec3 { x: 0, y: 0, z: 327680 },
            Vec3 { x: 0, y: 0, z: 0 },
            world_up(),
        ),
{
    let eye = Vec3 { x: 0, y: 0, z: 327680 };
    let center = Vec3 { x: 0, y: 0, z: 0 };
    let d = center.minus(eye);
    assert(d == Vec3 { x: 0, y: 0, z: (-327680) as i32 });
    assert(d.sq_len() == 327680 * 327680) by (nonlinear_arith)
        requires
            d.x == 0,
            d.y == 0,
            d.z == -327680,
    ;
    crate::fixed::lemma_isqrt_is(327680int * 327680int, 327680int);
    let f = Mat4::look_forward(eye, center);
    assert(f == Vec3 { x: 0, y: 0, z: (-65536) as i32 });
    let c = f.cross(world_up());
    assert(fixed_mul(-65536, 65536) == -65536) by (nonlinear_arith);
    assert(fixed_mul(0, 65536) == 0 && fixed_mul(0, 0) == 0 && fixed_mul(-65536, 0) == 0) by (
    nonlinear_arith);
    assert(c == Vec3 { x: 65536, y: 0, z: 0 });
    assert(c.sq_len() == 65536 * 65536) by (nonlinear_arith)
        requires
            c.x == 65536,
            c.y == 0,
            c.z == 0,
    ;
    crate::fixed::lemma_isqrt_is(65536int * 65536int, 65536int);
    let s = Mat4::look_side(eye, center, world_up());
    assert(s == Vec3 { x: 65536, y: 0, z: 0 });
    let u = Mat4::look_up(eye, center, world_up());
    assert(fixed_mul(65536, -65536) == -65536) by (nonlinear_arith);
    assert(fixed_mul(65536, 0) == 0) by (nonlinear_arith);
    assert(u == Vec3 { x: 0, y: 65536, z: 0 });
    assert(fixed_mul(327680, -65536) == -327680) by (nonlinear_arith);
    assert(fixed_mul(327680, 0) == 0 && fixed_mul(0, 65536) == 0) by (nonlinear_arith);
}

} // verus!
