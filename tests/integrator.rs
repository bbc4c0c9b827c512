use orbital::integrator::{rk4, rk4_2nd};

fn add(a: &f64, b: &f64) -> f64 {
    a + b
}

fn mul(a: &f64, b: &f64) -> f64 {
    a * b
}

fn divide(h: &f64, n: u32) -> f64 {
    h / n as f64
}

type Pair = (f64, f64);

fn add_pair(a: &Pair, b: &Pair) -> Pair {
    (a.0 + b.0, a.1 + b.1)
}

fn mul_pair(a: &Pair, h: &f64) -> Pair {
    (a.0 * h, a.1 * h)
}

#[test]
fn rk4_one_step_of_exponential_growth() {
    // y' = y from y = 1 with step 1: 1 + 1 + 1/2 + 1/6 + 1/24.
    let r = rk4(&|s: &f64| *s, &1.0, &1.0, &add, &add, &mul, &divide);
    assert!((r - 65.0 / 24.0).abs() < 1e-12);
}

#[test]
fn rk4_of_constant_derivative_is_linear() {
    let r = rk4(&|_s: &f64| 3.0, &2.0, &0.5, &add, &add, &mul, &divide);
    assert!((r - 3.5).abs() < 1e-12);
}

#[test]
fn rk4_harmonic_oscillator_returns_after_one_period() {
    let steps = 1000;
    let h = 2.0 * std::f64::consts::PI / steps as f64;
    let f = |s: &Pair| (s.1, -s.0);
    let mut s: Pair = (1.0, 0.0);
    for _ in 0..steps {
        s = rk4(&f, &s, &h, &add_pair, &add_pair, &mul_pair, &divide);
    }
    assert!((s.0 - 1.0).abs() < 1e-3);
    assert!(s.1.abs() < 1e-3);
}

#[test]
fn rk4_2nd_harmonic_oscillator_returns_after_one_period() {
    let steps = 1000;
    let h = 2.0 * std::f64::consts::PI / steps as f64;
    let accel = |p: &f64| -*p;
    let mut p = 0.0;
    let mut v = 1.0;
    for _ in 0..steps {
        let (np, nv) = rk4_2nd(&accel, &p, &v, &h, &add, &add, &add, &mul, &mul, &divide);
        p = np;
        v = nv;
    }
    assert!(p.abs() < 1e-3);
    assert!((v - 1.0).abs() < 1e-3);
}

#[test]
fn rk4_2nd_matches_rk4_on_the_pair() {
    let accel = |p: &f64| -p * p * 0.5 + 1.0;
    let h = 0.1;
    let (p, v) = rk4_2nd(&accel, &0.3, &-0.2, &h, &add, &add, &add, &mul, &mul, &divide);
    let f = |s: &Pair| (s.1, accel(&s.0));
    let s = rk4(&f, &(0.3, -0.2), &h, &add_pair, &add_pair, &mul_pair, &divide);
    assert!((p - s.0).abs() < 1e-12);
    assert!((v - s.1).abs() < 1e-12);
}

#[test]
fn rk4_2nd_free_motion_moves_by_velocity() {
    let (p, v) = rk4_2nd(&|_p: &f64| 0.0, &1.0, &2.0, &0.25, &add, &add, &add, &mul, &mul, &divide);
    assert!((p - 1.5).abs() < 1e-12);
    assert!((v - 2.0).abs() < 1e-12);
}
