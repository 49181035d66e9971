use mandel::{escape_count, mandel_iter};

type Z = (f64, f64);

fn step_with(c: Z) -> impl Fn(Z) -> Z {
    move |z: Z| (c.0 + (z.0 * z.0 - z.1 * z.1), c.1 + 2.0 * z.0 * z.1)
}

fn inside(z: Z) -> bool {
    z.0 * z.0 + z.1 * z.1 <= 4.0
}

fn mandel_count(x: f64, y: f64, max_iters: u32) -> u32 {
    escape_count((0.0, 0.0), max_iters, step_with((x, y)), inside)
}

#[test]
fn origin_never_escapes() {
    for max_iters in [0u32, 1, 2, 10, 1000] {
        assert_eq!(mandel_count(0.0, 0.0, max_iters), max_iters);
    }
}

#[test]
fn two_escapes_after_two_steps() {
    // |z1|^2 = 4 is still within the bailout, |z2|^2 = 36 is not.
    assert_eq!(mandel_count(2.0, 0.0, 100), 2);
    assert_eq!(mandel_count(2.0, 0.0, 1), 1);
}

#[test]
fn far_point_escapes_at_once() {
    assert_eq!(escape_count((3.0, 0.0), 50, step_with((0.0, 0.0)), inside), 0);
}

#[test]
fn zero_cap_returns_zero() {
    assert_eq!(mandel_count(5.0, 5.0, 0), 0);
}

#[test]
fn counts_stay_within_cap() {
    for ix in 0..20 {
        for iy in 0..20 {
            let x = -2.0 + 2.5 * (ix as f64 / 19.0);
            let y = -1.25 + 2.5 * (iy as f64 / 19.0);
            let n = mandel_count(x, y, 64);
            assert!(n <= 64);
        }
    }
}

#[test]
fn mandelbrot_is_symmetric_about_real_axis() {
    for &(x, y) in &[(-0.75, 0.1), (0.3, 0.5), (-1.3, 0.07), (0.26, 0.001), (-0.1, 0.9)] {
        assert_eq!(mandel_count(x, y, 500), mandel_count(x, -y, 500));
    }
}

#[test]
fn interior_points_agree_with_full_iteration() {
    // Centres and edges of the main cardioid and the period-2 bulb.
    for &(x, y) in &[(-0.5, 0.0), (0.0, 0.0), (-1.0, 0.0), (-0.75, 0.0), (-1.25, 0.0), (0.25, 0.0)] {
        let fast = mandel_iter((0.0, 0.0), 5000, true, step_with((x, y)), inside);
        let full = mandel_count(x, y, 5000);
        assert_eq!(fast, 5000);
        assert_eq!(full, 5000);
    }
}

#[test]
fn outside_points_follow_the_orbit() {
    assert_eq!(mandel_iter((0.0, 0.0), 100, false, step_with((2.0, 0.0)), inside), 2);
    assert_eq!(mandel_iter((0.0, 0.0), 100, true, step_with((2.0, 0.0)), inside), 100);
}

#[test]
fn julia_orbit_starts_at_the_point() {
    // c = 0: points on the unit circle stay, points beyond radius 2 leave at once.
    let step = step_with((0.0, 0.0));
    assert_eq!(escape_count((1.0, 0.0), 30, &step, inside), 30);
    assert_eq!(escape_count((2.5, 0.0), 30, &step, inside), 0);
    // 1.5 -> 2.25: one squaring and |z|^2 exceeds 4.
    assert_eq!(escape_count((1.5, 0.0), 30, &step, inside), 1);
}
