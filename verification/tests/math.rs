//! Scalar and vector math of the kernel, on concrete values.  All
//! quantities are fixed-point integers with 1_000_000 units per 1.0.

use sdf_trace::fixed::{fadd, fmul, fsub, isqrt, FIX_MAX, SCALE};
use sdf_trace::scene::{color, normal, scene, sphere2_center};
use sdf_trace::shade::shade;
use sdf_trace::trace::{trace, HitResult};
use sdf_trace::vec3::Vec3;

#[test]
fn saturating_ops_stay_in_domain() {
    assert_eq!(fadd(FIX_MAX, FIX_MAX), FIX_MAX);
    assert_eq!(fadd(-FIX_MAX, -FIX_MAX), -FIX_MAX);
    assert_eq!(fsub(-FIX_MAX, FIX_MAX), -FIX_MAX);
    assert_eq!(fmul(FIX_MAX, FIX_MAX), FIX_MAX);
    assert_eq!(fmul(FIX_MAX, -FIX_MAX), -FIX_MAX);
}

#[test]
fn fixed_mul_truncates_toward_zero() {
    assert_eq!(fmul(1_500_000, 1_500_000), 2_250_000);
    assert_eq!(fmul(1, 1), 0);
    assert_eq!(fmul(-1, 1), 0);
    assert_eq!(fmul(999_999, 1), 0);
    assert_eq!(fmul(-1_000_001, 1), -1);
}

#[test]
fn isqrt_exact_values() {
    assert_eq!(isqrt(0), 0);
    assert_eq!(isqrt(3), 1);
    assert_eq!(isqrt(4), 2);
    assert_eq!(isqrt(999_999_000_000), 999_999);
    assert_eq!(isqrt(1_000_000_000_000_000_000_000_000), 1_000_000_000_000);
}

#[test]
fn vector_componentwise_ops() {
    let a = Vec3::new(1_000_000, 2_000_000, -3_000_000);
    let b = Vec3::new(500_000, -500_000, 1_000_000);
    assert_eq!(a.add(b), Vec3::new(1_500_000, 1_500_000, -2_000_000));
    assert_eq!(a.sub(b), Vec3::new(500_000, 2_500_000, -4_000_000));
    assert_eq!(a.sub_scalar(1_000_000), Vec3::new(0, 1_000_000, -4_000_000));
    assert_eq!(a.mul(500_000), Vec3::new(500_000, 1_000_000, -1_500_000));
    assert_eq!(a.dot(b), 500_000 - 1_000_000 - 3_000_000);
    assert_eq!(a.sx(7), Vec3::new(7, 2_000_000, -3_000_000));
    assert_eq!(a.sy(7), Vec3::new(1_000_000, 7, -3_000_000));
    assert_eq!(a.sz(7), Vec3::new(1_000_000, 2_000_000, 7));
}

#[test]
fn length_of_pythagorean_vector_is_exact() {
    let v = Vec3::new(3_000_000, 4_000_000, 0);
    assert_eq!(v.length(), 5_000_000);
}

#[test]
fn normalize_has_unit_length() {
    let v = Vec3::new(3_000_000, 4_000_000, 0);
    let n = v.normalize();
    assert_eq!(n, Vec3::new(600_000, 800_000, 0));
    assert_eq!(n.length(), 1_000_000);
    let w = Vec3::new(1_000_000, 1_000_000, 1_000_000).normalize();
    let l = w.length();
    assert!((SCALE - l).abs() <= 1_000);
    // A short, gradient-sized vector: the rounding slack grows, but the
    // result is still a unit vector within two hundredths.
    let g = Vec3::new(14_142, 14_142, 0).normalize();
    assert!((SCALE - g.length()).abs() <= 20_000);
}

#[test]
fn normalize_of_degenerate_vector_is_zero() {
    assert_eq!(Vec3::zero().normalize(), Vec3::zero());
    // Short enough that its fixed-point square sum underflows to 0.
    assert_eq!(Vec3::new(10, -10, 10).normalize(), Vec3::zero());
}

#[test]
fn scene_is_minus_one_at_both_sphere_centers() {
    assert_eq!(scene(Vec3::zero()), -1_000_000);
    assert_eq!(scene(Vec3::new(-2_000_000, 0, 1_000_000)), -1_000_000);
    assert_eq!(sphere2_center(), Vec3::new(-2_000_000, 0, 1_000_000));
}

#[test]
fn scene_is_positive_far_from_both_centers() {
    let p = Vec3::new(4_000_000, 0, 0);
    assert!(p.length() > 3_000_000);
    assert!(p.sub(sphere2_center()).length() > 3_000_000);
    assert_eq!(scene(p), 3_000_000);
    let q = Vec3::new(0, 5_000_000, 0);
    assert!(q.length() > 3_000_000);
    assert!(q.sub(sphere2_center()).length() > 3_000_000);
    assert!(scene(q) > 0);
}

#[test]
fn albedo_follows_the_nearer_sphere() {
    assert_eq!(color(Vec3::new(0, 0, -1_000_000)), Vec3::new(1_000_000, 500_000, 200_000));
    assert_eq!(
        color(Vec3::new(-2_000_000, 0, 1_000_000)),
        Vec3::new(300_000, 700_000, 400_000)
    );
}

#[test]
fn normal_points_back_along_the_axis_of_approach() {
    let n = normal(Vec3::new(0, 0, -1_000_000), 10_000);
    assert_eq!(n, Vec3::new(0, 0, -1_000_000));
}

#[test]
fn trace_hits_front_of_first_sphere_at_one() {
    let ro = Vec3::new(0, 0, -2_000_000);
    let rd = Vec3::new(0, 0, 1_000_000).normalize();
    match trace(ro, rd, 10_000, 64) {
        HitResult::Hit(t) => assert_eq!(t, 1_000_000),
        HitResult::Miss => panic!("expected a hit on the first sphere"),
    }
}

#[test]
fn trace_away_from_the_scene_misses() {
    let ro = Vec3::new(0, 0, -2_000_000);
    let rd = Vec3::new(0, 0, -1_000_000);
    assert_eq!(trace(ro, rd, 10_000, 64), HitResult::Miss);
}

#[test]
fn shade_full_light_scales_color_by_one_plus_ambient() {
    let col = Vec3::new(1_000_000, 500_000, 200_000);
    let l = Vec3::new(0, 1_000_000, 0);
    let n = Vec3::new(0, 1_000_000, 0);
    assert_eq!(l.dot(n), 1_000_000);
    assert_eq!(shade(col, l, n), Vec3::new(1_050_000, 525_000, 210_000));
}

#[test]
fn shade_clamps_to_black_under_the_threshold() {
    let col = Vec3::new(1_000_000, 500_000, 200_000);
    let l = Vec3::new(0, 1_000_000, 0);
    let n = Vec3::new(0, -100_000, 0);
    assert_eq!(l.dot(n), -100_000);
    assert_eq!(shade(col, l, n), Vec3::zero());
}

#[test]
fn shade_threshold_sits_at_minus_five_percent_not_zero() {
    let col = Vec3::new(1_000_000, 500_000, 200_000);
    let l = Vec3::new(0, 1_000_000, 0);
    // Exactly at the threshold: still the lit path, which cancels to 0.
    assert_eq!(shade(col, l, Vec3::new(0, -50_000, 0)), Vec3::zero());
    // Just above the threshold: the ambient term survives.
    assert_eq!(
        shade(col, l, Vec3::new(0, -40_000, 0)),
        Vec3::new(10_000, 5_000, 2_000)
    );
}
