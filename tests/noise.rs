use rustedcraft::fixed::ONE;
use rustedcraft::perlin_noise::{fade, grad, lerp, PerlinNoise};

#[test]
fn noise_exact_values() {
    let n = PerlinNoise::new();
    assert_eq!(n.noise(81920, 163840, -49152), -1200);
    assert_eq!(n.noise(-216269, 12345, 98765), 3376);
}

#[test]
fn noise_vanishes_on_lattice_points() {
    let n = PerlinNoise::new();
    for (x, y, z) in [(0, 0, 0), (3, -7, 12), (255, 256, -1)] {
        assert_eq!(n.noise(x * ONE, y * ONE, z * ONE), 0);
    }
}

#[test]
fn noise_is_deterministic() {
    let a = PerlinNoise::new();
    let b = PerlinNoise::new();
    for i in -20..20 {
        let (x, y, z) = (i * 12347 + 5, i * -7771 + 90, i * 31337);
        let first = a.noise(x, y, z);
        assert_eq!(first, a.noise(x, y, z));
        assert_eq!(first, b.noise(x, y, z));
    }
}

#[test]
fn noise_stays_near_unit_range() {
    let n = PerlinNoise::new();
    let limit = (1.2f64 * ONE as f64) as i32;
    for i in -40..40 {
        for j in -10..10 {
            for k in -5..5 {
                let v = n.noise(i * 13107 + 777, j * 21845 + 123, k * 30000 + 5);
                assert!(v.abs() <= limit, "noise {} out of range", v);
            }
        }
    }
}

#[test]
fn noise_is_continuous_across_lattice() {
    let n = PerlinNoise::new();
    let eps = 16;
    for cell in [-3, -1, 0, 1, 2, 7, 255, 256] {
        let x = cell * ONE;
        for (y, z) in [(12345, 6789), (-40000, 100), (ONE / 2, ONE / 3)] {
            let below = n.noise(x - eps, y, z);
            let at = n.noise(x, y, z);
            let above = n.noise(x + eps, y, z);
            assert!((at - below).abs() <= 64, "jump {} below {}", at - below, cell);
            assert!((above - at).abs() <= 64, "jump {} above {}", above - at, cell);
        }
    }
}

#[test]
fn fade_curve_values() {
    assert_eq!(fade(0), 0);
    assert_eq!(fade(ONE / 2), ONE / 2);
    assert_eq!(fade(ONE / 4), 6784);
    assert_eq!(fade(ONE - 1), ONE);
}

#[test]
fn lerp_values() {
    assert_eq!(lerp(0, ONE, -ONE), ONE);
    assert_eq!(lerp(ONE, ONE, -ONE), -ONE);
    assert_eq!(lerp(ONE / 4, 0, 2 * ONE), ONE / 2);
}

#[test]
fn grad_selects_directions() {
    let (x, y, z) = (ONE / 2, ONE / 4, -ONE / 8);
    assert_eq!(grad(0, x, y, z), x + y);
    assert_eq!(grad(1, x, y, z), -x + y);
    assert_eq!(grad(2, x, y, z), x - y);
    assert_eq!(grad(7, x, y, z), -x - z);
    assert_eq!(grad(8, x, y, z), y + z);
    assert_eq!(grad(12, x, y, z), y + x);
    assert_eq!(grad(14, x, y, z), y - x);
    assert_eq!(grad(15, x, y, z), -y - z);
    assert_eq!(grad(16 + 3, x, y, z), -x - y);
}
