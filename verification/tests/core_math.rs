//! Tests of the fixed-point scalar, vector and trigonometric layers.

use flycam::fixed::{fx_mul_exec, isqrt, SCALE};
use flycam::integrate::orthonormalize;
use flycam::trig::sin_cos_fx;
use flycam::vec3::Vec3Fx;

fn to_f(v: i64) -> f64 {
    v as f64 / SCALE as f64
}

fn fx(x: f64) -> i64 {
    (x * SCALE as f64).round() as i64
}

fn norm(v: &Vec3Fx) -> f64 {
    let (x, y, z) = (to_f(v.x), to_f(v.y), to_f(v.z));
    (x * x + y * y + z * z).sqrt()
}

fn dot(a: &Vec3Fx, b: &Vec3Fx) -> f64 {
    to_f(a.x) * to_f(b.x) + to_f(a.y) * to_f(b.y) + to_f(a.z) * to_f(b.z)
}

#[test]
fn fx_mul_rounds_toward_zero() {
    assert_eq!(fx_mul_exec(fx(2.5), fx(4.0)), fx(10.0));
    assert_eq!(fx_mul_exec(fx(-2.5), fx(4.0)), fx(-10.0));
    assert_eq!(fx_mul_exec(1, 1), 0);
    assert_eq!(fx_mul_exec(-1, 1), 0);
    assert_eq!(fx_mul_exec(fx(3.0), 0), 0);
    assert_eq!(fx_mul_exec(fx(1.0), fx(1.0)), SCALE);
}

#[test]
fn isqrt_exact_values() {
    assert_eq!(isqrt(0), 0);
    assert_eq!(isqrt(1), 1);
    assert_eq!(isqrt(15), 3);
    assert_eq!(isqrt(16), 4);
    assert_eq!(isqrt(17), 4);
    assert_eq!(isqrt((1u128 << 64) - 1), 4294967295);
    assert_eq!(isqrt(u64::MAX as u128 * u64::MAX as u128), u64::MAX);
}

#[test]
fn sin_cos_matches_reference() {
    for &deg in &[0.0f64, 10.0, 45.0, 90.0, 135.0, 180.0, 250.0, 359.0, -45.0, -720.0, 1000.0] {
        let rad = deg.to_radians();
        let a = fx(rad);
        let (s, c) = sin_cos_fx(a);
        let angle = a as f64 / SCALE as f64;
        assert!(
            (to_f(s) - angle.sin()).abs() < 1e-4,
            "sin({deg} deg): got {} want {}",
            to_f(s),
            angle.sin()
        );
        assert!(
            (to_f(c) - angle.cos()).abs() < 1e-4,
            "cos({deg} deg): got {} want {}",
            to_f(c),
            angle.cos()
        );
    }
}

#[test]
fn sin_cos_zero_is_exact() {
    assert_eq!(sin_cos_fx(0), (0, SCALE));
}

// A quarter-pi angle rounds to the representable value nearest sin(pi/4),
// within one part in 65536 of the real sine and cosine.
#[test]
fn sin_cos_quarter_pi_rounds_to_nearest() {
    let (s, c) = sin_cos_fx(51472);
    assert_eq!(s, 46341);
    assert_eq!(c, 46341);
    let angle = 51472.0 / SCALE as f64;
    assert!((to_f(s) - angle.sin()).abs() < 1e-5);
    assert!((to_f(c) - angle.cos()).abs() < 1e-5);
}

#[test]
fn sin_is_odd() {
    for &a in &[51472i64, 102944, 3000, 205887, 300000] {
        let (s_pos, c_pos) = sin_cos_fx(a);
        let (s_neg, c_neg) = sin_cos_fx(-a);
        assert_eq!(s_neg, -s_pos);
        assert_eq!(c_neg, c_pos);
    }
}

// For any non-colinear, non-zero pair, orthonormalization yields unit-length,
// perpendicular vectors (within the fixed-point grid's tolerance).
#[test]
fn orthonormality_invariant() {
    let cases = [
        ((1.0, 0.0, 0.0), (0.0, 1.0, 0.0)),
        ((1.0, 0.2, -0.3), (0.1, 1.0, 0.4)),
        ((3.0, 4.0, 0.0), (0.0, 0.0, 2.5)),
        ((-1.0, 1.0, 1.0), (1.0, 2.0, -0.5)),
        ((0.6, -0.8, 0.01), (0.5, 0.5, 0.7)),
        ((120.0, -3.0, 44.0), (5.0, 90.0, -2.0)),
    ];
    for ((fx1, fy, fz), (ux, uy, uz)) in cases {
        let f = Vec3Fx { x: fx(fx1), y: fx(fy), z: fx(fz) };
        let u = Vec3Fx { x: fx(ux), y: fx(uy), z: fx(uz) };
        let (f2, u2, r2) = orthonormalize(&f, &u);
        assert!((norm(&f2) - 1.0).abs() < 1e-4, "fwd norm {}", norm(&f2));
        assert!((norm(&u2) - 1.0).abs() < 1e-4, "up norm {}", norm(&u2));
        assert!(dot(&f2, &u2).abs() < 2.5e-4, "dot {}", dot(&f2, &u2));
        assert!((norm(&r2) - 1.0).abs() < 1e-3, "right norm {}", norm(&r2));
    }
}

// Orthonormalizing twice gives a result within tolerance of orthonormalizing
// once: already-orthonormal input is (numerically) a fixed point.
#[test]
fn orthonormalize_idempotent() {
    let cases = [
        ((1.0, 0.2, -0.3), (0.1, 1.0, 0.4)),
        ((3.0, 4.0, 0.0), (0.0, 0.0, 2.5)),
        ((-1.0, 1.0, 1.0), (1.0, 2.0, -0.5)),
    ];
    for ((fx1, fy, fz), (ux, uy, uz)) in cases {
        let f = Vec3Fx { x: fx(fx1), y: fx(fy), z: fx(fz) };
        let u = Vec3Fx { x: fx(ux), y: fx(uy), z: fx(uz) };
        let (f1, u1, _) = orthonormalize(&f, &u);
        let (f2, u2, _) = orthonormalize(&f1, &u1);
        for (a, b) in [(f1, f2), (u1, u2)] {
            assert!((to_f(a.x) - to_f(b.x)).abs() < 1e-3);
            assert!((to_f(a.y) - to_f(b.y)).abs() < 1e-3);
            assert!((to_f(a.z) - to_f(b.z)).abs() < 1e-3);
        }
    }
}
