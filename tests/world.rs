use rustedcraft::camera::Heading;
use rustedcraft::config::Config;
use rustedcraft::fixed::{HALF, ONE};
use rustedcraft::input::{Action, InputDatas, Key};
use rustedcraft::mat::Mat4;
use rustedcraft::vec::{Vec2, Vec3};
use rustedcraft::world::{generate, World, CUBE_TEXTURE};

fn small_config() -> Config {
    let mut c = Config::standard();
    c.grid_width = 2;
    c.grid_depth = 2;
    c
}

#[test]
fn generation_is_deterministic() {
    let config = Config::standard();
    let a = generate(&config);
    let b = generate(&config);
    assert_eq!(a.len(), 6400);
    assert_eq!(a, b);
}

#[test]
fn generation_places_cubes_row_by_row() {
    let cubes = generate(&Config::standard());
    for (x, z, h) in [(0, 0, 5), (0, 9, 7), (0, 27, 3), (5, 40, 4)] {
        let c = cubes[x * 80 + z];
        assert_eq!(c.tex_id, CUBE_TEXTURE);
        assert_eq!(c.position, Mat4::translate(x as i32 * ONE, h * ONE, z as i32 * ONE));
    }
}

#[test]
fn empty_grid_generates_nothing() {
    let mut c = Config::standard();
    c.grid_width = 0;
    assert!(generate(&c).is_empty());
}

#[test]
fn end_to_end_two_by_two() {
    let world = World::with_config(&small_config(), Vec2::new(1024 * ONE, 768 * ONE));
    let pairs = world.draw().expect("representable");
    assert_eq!(pairs.len(), 4);
    let cam = world.camera.mat_projection.cross_product(&world.camera.mat_view);
    let scale = Mat4::scale(HALF, HALF, HALF);
    for (i, (tex, mvp)) in pairs.iter().enumerate() {
        let (x, z) = ((i / 2) as i32, (i % 2) as i32);
        let placed = Mat4::translate(x * ONE, 5 * ONE, z * ONE);
        assert_eq!(world.cubes_datas[i].position, placed);
        assert_eq!(*tex, CUBE_TEXTURE);
        assert_eq!(*mvp, cam.cross_product(&placed.cross_product(&scale)));
    }
}

#[test]
fn world_update_moves_only_camera() {
    let mut world = World::with_config(&small_config(), Vec2::new(1024 * ONE, 768 * ONE));
    let cubes = world.cubes_datas.clone();
    let input = InputDatas {
        keys: vec![(Action::Press, Key::W)],
        mouse_position: Vec2::new(512 * ONE, 384 * ONE),
    };
    let heading = Heading { forward: Vec3::new(0, 0, -ONE), right: Vec3::new(ONE, 0, 0) };
    world.update(&input, ONE, &heading);
    assert_eq!(world.camera.position, Vec3::new(0, 0, -5 * ONE));
    assert_eq!(world.cubes_datas, cubes);
}

#[test]
fn draw_reports_unrepresentable_matrices() {
    let mut world = World::with_config(&small_config(), Vec2::new(1024 * ONE, 768 * ONE));
    world.camera.mat_view = Mat4::scale(30000 * ONE, ONE, ONE);
    assert_eq!(world.draw(), None);
}
