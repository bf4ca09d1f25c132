//! The renderer's configuration constants.
use vstd::prelude::*;
use crate::mat::Angle;
use crate::vec::Vec3;

verus! {

/// cos 22.5°: half of the standard 45° vertical field of view.
pub const COS_HALF_FOVY: i32 = 60548;

/// sin 22.5°.
pub const SIN_HALF_FOVY: i32 = 25080;

/// 4 / 3.
pub const ASPECT: i32 = 87381;

/// 0.1.
pub const Z_NEAR: i32 = 6554;

/// 100.
pub const Z_FAR: i32 = 6553600;

/// 10 units per second.
pub const SPEED: i32 = 655360;

/// 0.07 radians per second per pixel of pointer offset.
pub const MOUSE_SPEED: i32 = 4588;

/// 1.57 radians, the offset from the view direction to the right direction.
pub const RIGHT_ANGLE: i32 = 102892;

/// 3.14 radians, the starting yaw.
pub const START_YAW: i32 = 205783;

/// 1.55 radians: the pitch is kept within this bound, short of the poles,
/// so that the view direction is never parallel to the world's up direction.
pub const PITCH_LIMIT: i32 = 101581;

/// Cells along each horizontal axis of the standard world.
pub const GRID_EXTENT: usize = 80;

/// The largest grid extent whose coordinates are representable.
pub const MAX_GRID_EXTENT: usize = 32768;

/// The recognized options.
#[derive(Clone, Copy, Debug, PartialEq, Eq, Structural)]
pub struct Config {
    /// Half the vertical field of view.
    pub half_fovy: Angle,
    pub aspect: i32,
    pub z_near: i32,
    pub z_far: i32,
    /// Movement speed, in units per second.
    pub speed: i32,
    /// Turn rate, in radians per second per pixel of pointer offset.
    pub mouse_sensitivity: i32,
    pub grid_width: usize,
    pub grid_depth: usize,
    /// Factors from grid coordinates to noise coordinates.
    pub noise_scale: Vec3,
}

impl Config {
    /// The grid coordinates and their noise coordinates are representable.
    pub open spec fn wf(self) -> bool {
        &&& self.grid_width <= MAX_GRID_EXTENT
        &&& self.grid_depth <= MAX_GRID_EXTENT
        &&& -65536 <= self.noise_scale.x <= 65536
        &&& -65536 <= self.noise_scale.y <= 65536
        &&& -65536 <= self.noise_scale.z <= 65536
    }

    pub open spec fn standard_spec() -> Config {
        Config {
            half_fovy: Angle { cos: COS_HALF_FOVY, sin: SIN_HALF_FOVY },
            aspect: ASPECT,
            z_near: Z_NEAR,
            z_far: Z_FAR,
            speed: SPEED,
            mouse_sensitivity: MOUSE_SPEED,
            grid_width: GRID_EXTENT,
            grid_depth: GRID_EXTENT,
            noise_scale: Vec3 { x: 655, y: 9830, z: 3277 },
        }
    }

    /// The standard configuration: a 45° field of view at 4:3 from 0.1 to 100,
    /// an 80 × 80 grid, and noise sampled at (0.01, 0.15, 0.05) per cell.
    pub fn standard() -> (r: Config)
        ensures
            r == Config::standard_spec(),
            r.wf(),
    {
        Config {
            half_fovy: Angle { cos: COS_HALF_FOVY, sin: SIN_HALF_FOVY },
            aspect: ASPECT,
            z_near: Z_NEAR,
            z_far: Z_FAR,
            speed: SPEED,
            mouse_sensitivity: MOUSE_SPEED,
            grid_width: GRID_EXTENT,
            grid_depth: GRID_EXTENT,
            noise_scale: Vec3 { x: 655, y: 9830, z: 3277 },
        }
    }
}

} // verus!
