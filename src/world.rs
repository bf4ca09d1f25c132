//! The voxel world: a grid of cubes whose heights come from noise, and the
//! per-frame composition of each cube's model-view-projection matrix.
use vstd::prelude::*;
use crate::camera::{Camera, Heading};
use crate::config::{Config, MAX_GRID_EXTENT};
use crate::fixed::{fixed_mul, fmul, tdiv, HALF, ONE};
use crate::input::InputDatas;
use crate::mat::Mat4;
use crate::perlin_noise::{noise_at, PerlinNoise};
use crate::vec::Vec2;

verus! {

/// The texture every generated cube carries.
pub const CUBE_TEXTURE: u32 = 2;

/// A cube: an index into the renderer's texture table and a model matrix.
#[derive(Clone, Copy, Debug, PartialEq, Eq, Structural)]
pub struct CubeData {
    pub tex_id: u32,
    pub position: Mat4,
}

/// The height of the cube at grid cell `(x, z)`: the noise at the scaled
/// coordinates, mapped from `[-1, 1]` to `[0, 1]`, times ten, truncated to a
/// whole number. The grid has one layer, at `y = 0`, whose noise coordinate is 0.
pub open spec fn height_at(config: Config, x: int, z: int) -> int {
    let n = noise_at(x * config.noise_scale.x, 0, z * config.noise_scale.z);
    let tex = fixed_mul(n, HALF as int) + HALF;
    tdiv(tex * 10, 65536) * 65536
}

/// The cube at grid cell `(x, z)`, translated to `(x, height, z)`.
pub open spec fn cube_at(config: Config, x: int, z: int) -> CubeData {
    CubeData {
        tex_id: CUBE_TEXTURE,
        position: Mat4::translation(
            (x * 65536) as i32,
            height_at(config, x, z) as i32,
            (z * 65536) as i32,
        ),
    }
}

/// The cubes of the grid, row by row: cell `(x, z)` at index `x · depth + z`.
pub open spec fn layout(config: Config) -> Seq<CubeData> {
    Seq::new(
        (config.grid_width * config.grid_depth) as nat,
        |i: int| cube_at(config, i / config.grid_depth as int, i % config.grid_depth as int),
    )
}

/// The uniform scale applied to every cube.
pub open spec fn cube_scale() -> Mat4 {
    Mat4::scaling(HALF, HALF, HALF)
}

/// A cube's model matrix: its placement times the uniform scale.
pub open spec fn model_of(position: Mat4) -> Mat4 {
    Mat4::product(position, cube_scale())
}

pub open spec fn mvp_fits(cam: Mat4, position: Mat4) -> bool {
    Mat4::product_fits(position, cube_scale()) && Mat4::product_fits(cam, model_of(position))
}

/// `cam · (position · scale)`.
pub open spec fn mvp_of(cam: Mat4, position: Mat4) -> Mat4 {
    Mat4::product(cam, model_of(position))
}

/// The draw-ready pairs for `cubes` under the view-projection `cam`.
pub open spec fn composed(cam: Mat4, cubes: Seq<CubeData>) -> Seq<(u32, Mat4)> {
    cubes.map_values(|c: CubeData| (c.tex_id, mvp_of(cam, c.position)))
}

proof fn lemma_cell_index(i: int, j: int, x: int, d: int)
    requires
        0 <= i < x,
        0 <= j < d,
    ensures
        0 <= i * d + j < x * d,
{
    assert(0 <= i * d + j < x * d) by (nonlinear_arith)
        requires
            0 <= i < x,
            0 <= j < d,
    ;
}

/// The height of a cell, computed from its noise value.
fn height(noise: &PerlinNoise, config: &Config, x: usize, z: usize) -> (r: i32)
    requires
        config.wf(),
        x < MAX_GRID_EXTENT,
        z < MAX_GRID_EXTENT,
    ensures
        r == height_at(*config, x as int, z as int),
{
    let (sx, sz) = (config.noise_scale.x, config.noise_scale.z);
    proof {
        assert(-0x7fff_0000 <= x * sx <= 0x7fff_0000) by (nonlinear_arith)
            requires
                0 <= x <= 32767,
                -65536 <= sx <= 65536,
        ;
        assert(-0x7fff_0000 <= z * sz <= 0x7fff_0000) by (nonlinear_arith)
            requires
                0 <= z <= 32767,
                -65536 <= sz <= 65536,
        ;
    }
    let n = noise.noise((x as i32) * sx, 0, (z as i32) * sz);
    proof {
        assert(-65536 <= fixed_mul(n as int, 32768) <= 65536) by (nonlinear_arith)
            requires
                -2 * 65536 <= n <= 2 * 65536,
        ;
    }
    let tex = fmul(n, HALF) + HALF;
    let t = tex * 10;
    let levels: i32 = if t >= 0 {
        t / 65536
    } else {
        -((-t) / 65536)
    };
    levels * ONE
}

/// Generates the cubes of the grid, row by row, with heights from noise.
pub fn generate(config: &Config) -> (r: Vec<CubeData>)
    requires
        config.wf(),
    ensures
        r@ == layout(*config),
{
    let noise = PerlinNoise::new();
    let (w, d) = (config.grid_width, config.grid_depth);
    let mut cubes_datas: Vec<CubeData> = Vec::new();
    let mut x: usize = 0;
    while x < w
        invariant
            x <= w,
            w == config.grid_width,
            d == config.grid_depth,
            config.wf(),
            cubes_datas@.len() == x * d,
            forall|i: int, j: int|
                0 <= i < x && 0 <= j < d ==> #[trigger] cubes_datas@[i * d + j] == cube_at(
                    *config,
                    i,
                    j,
                ),
        decreases w - x,
    {
        let mut z: usize = 0;
        while z < d
            invariant
                x < w,
                z <= d,
                w == config.grid_width,
                d == config.grid_depth,
                config.wf(),
                cubes_datas@.len() == x * d + z,
                forall|i: int, j: int|
                    0 <= i < x && 0 <= j < d ==> #[trigger] cubes_datas@[i * d + j] == cube_at(
                        *config,
                        i,
                        j,
                    ),
                forall|j: int| 0 <= j < z ==> #[trigger] cubes_datas@[x * d + j] == cube_at(*config, x as int, j),
            decreases d - z,
        {
            let h = height(&noise, config, x, z);
            let cube = CubeData {
                tex_id: CUBE_TEXTURE,
                position: Mat4::translate((x as i32) * ONE, h, (z as i32) * ONE),
            };
            let ghost before = cubes_datas@;
            cubes_datas.push(cube);
            proof {
                assert forall|i: int, j: int| 0 <= i < x && 0 <= j < d implies #[trigger] cubes_datas@[i
                    * d + j] == cube_at(*config, i, j) by {
                    lemma_cell_index(i, j, x as int, d as int);
                    assert(cubes_datas@[i * d + j] == before[i * d + j]);
                }
                assert(cubes_datas@[x * d + z] == cube_at(*config, x as int, z as int));
            }
            z += 1;
        }
        proof {
            assert((x + 1) * d == x * d + d) by (nonlinear_arith);
            assert forall|i: int, j: int| 0 <= i < x + 1 && 0 <= j < d implies #[trigger] cubes_datas@[i
                * d + j] == cube_at(*config, i, j) by {
                if i == x {
                    assert(cubes_datas@[x * d + j] == cube_at(*config, x as int, j));
                }
            }
        }
        x += 1;
    }
    proof {
        let l = layout(*config);
        assert forall|k: int| 0 <= k < l.len() implies cubes_datas@[k] == l[k] by {
            let (i, j) = (k / d as int, k % d as int);
            vstd::arithmetic::div_mod::lemma_fundamental_div_mod(k, d as int);
            vstd::arithmetic::div_mod::lemma_mod_bound(k, d as int);
            assert(0 <= i < w) by (nonlinear_arith)
                requires
                    k == d * i + j,
                    0 <= j < d,
                    0 <= k < w * d,
            ;
            assert(k == i * d + j) by (nonlinear_arith)
                requires
                    k == d * i + j,
            ;
        }
        assert(cubes_datas@ =~= l);
    }
    cubes_datas
}

/// Generation depends on the configuration alone: two layouts generated from
/// the same configuration hold the same cubes in the same order.
pub proof fn lemma_generation_repeatable(config: Config, a: Seq<CubeData>, b: Seq<CubeData>)
    requires
        a == layout(config),
        b == layout(config),
    ensures
        a.len() == b.len(),
        forall|i: int| 0 <= i < a.len() ==> a[i] == b[i],
{
}

/// The cubes and the camera that views them.
#[derive(Clone, Debug)]
pub struct World {
    pub cubes_datas: Vec<CubeData>,
    pub camera: Camera,
}

impl World {
    /// The standard world: an 80 × 80 grid seen from the starting camera.
    pub fn new(window_size: Vec2) -> (r: World)
        ensures
            r.cubes_datas@ == layout(Config::standard_spec()),
            r.camera == Camera::initial(Config::standard_spec(), window_size),
    {
        let config = Config::standard();
        World { cubes_datas: generate(&config), camera: Camera::new(window_size) }
    }

    pub fn with_config(config: &Config, window_size: Vec2) -> (r: World)
        requires
            config.wf(),
            Mat4::perspective_defined(
                config.half_fovy,
                config.aspect as int,
                config.z_near as int,
                config.z_far as int,
            ),
        ensures
            r.cubes_datas@ == layout(*config),
            r.camera == Camera::initial(*config, window_size),
    {
        World { cubes_datas: generate(config), camera: Camera::with_config(config, window_size) }
    }

    /// Advances the camera by one frame; the cubes do not change.
    pub fn update(&mut self, input_datas: &InputDatas, delta_time: i32, heading: &Heading)
        ensures
            final(self).cubes_datas@ == old(self).cubes_datas@,
            final(self).camera == old(self).camera.stepped(input_datas.keys@, delta_time, *heading),
    {
        self.camera.update(input_datas, delta_time, heading);
    }

    proof fn lemma_unfit_cube(&self, i: int)
        requires
            0 <= i < self.cubes_datas@.len(),
            !mvp_fits(
                Mat4::product(self.camera.mat_projection, self.camera.mat_view),
                self.cubes_datas@[i].position,
            ),
        ensures
            !(forall|k: int|
                0 <= k < self.cubes_datas@.len() ==> #[trigger] mvp_fits(
                    Mat4::product(self.camera.mat_projection, self.camera.mat_view),
                    self.cubes_datas@[k].position,
                )),
    {
    }

    /// The draw-ready `(texture, mvp)` pairs, in generation order, where each
    /// `mvp` is `projection · view · (placement · scale(0.5))`; `None` where
    /// a matrix on the way is not representable.
    pub fn draw(&self) -> (r: Option<Vec<(u32, Mat4)>>)
        ensures
            r.is_some() <==> Mat4::product_fits(
                self.camera.mat_projection,
                self.camera.mat_view,
            ) && forall|i: int|
                0 <= i < self.cubes_datas@.len() ==> #[trigger] mvp_fits(
                    Mat4::product(self.camera.mat_projection, self.camera.mat_view),
                    self.cubes_datas@[i].position,
                ),
            r matches Some(v) ==> v@ == composed(
                Mat4::product(self.camera.mat_projection, self.camera.mat_view),
                self.cubes_datas@,
            ),
    {
        let cam = match self.camera.get_mat() {
            Some(m) => m,
            None => {
                return None;
            },
        };
        let scale = Mat4::scale(HALF, HALF, HALF);
        let cubes = &self.cubes_datas;
        let mut out: Vec<(u32, Mat4)> = Vec::new();
        let mut i: usize = 0;
        while i < cubes.len()
            invariant
                i <= cubes@.len(),
                cubes@ == self.cubes_datas@,
                cam == Mat4::product(self.camera.mat_projection, self.camera.mat_view),
                scale == cube_scale(),
                forall|j: int| 0 <= j < i ==> #[trigger] mvp_fits(cam, cubes@[j].position),
                out@ == composed(cam, cubes@.subrange(0, i as int)),
            decreases cubes@.len() - i,
        {
            let c = cubes[i];
            let model = match c.position.checked_product(&scale) {
                Some(m) => m,
                None => {
                    proof {
                        self.lemma_unfit_cube(i as int);
                    }
                    return None;
                },
            };
            let mvp = match cam.checked_product(&model) {
                Some(m) => m,
                None => {
                    proof {
                        self.lemma_unfit_cube(i as int);
                    }
                    return None;
                },
            };
            out.push((c.tex_id, mvp));
            proof {
                assert(composed(cam, cubes@.subrange(0, i + 1)) =~= composed(
                    cam,
                    cubes@.subrange(0, i as int),
                ).push((c.tex_id, mvp)));
            }
            i += 1;
        }
        proof {
            assert(cubes@.subrange(0, cubes@.len() as int) =~= cubes@);
        }
        Some(out)
    }
}

} // verus!
