//! The per-pixel kernel and the frame drivers, across strategies.

use sdf_trace::render::{render, run_pixel, run_rayon, run_serial, ExecutionStrategy, RenderConfig};
use sdf_trace::wide::{run_pixel_wide, run_simd, Vec4};

fn small_config() -> RenderConfig {
    RenderConfig { size: 8, iterations: 64, epsilon: 10_000, num_runs: 1 }
}

#[test]
fn standard_config_matches_the_reference_constants() {
    let cfg = RenderConfig::standard();
    assert_eq!(cfg.size, 1024);
    assert_eq!(cfg.iterations, 64);
    assert_eq!(cfg.epsilon, 10_000);
    assert_eq!(cfg.num_runs, 50);
}

#[test]
fn center_pixel_shades_the_first_sphere() {
    let cfg = RenderConfig::standard();
    let id = (cfg.size / 2) * cfg.size + cfg.size / 2;
    let px = run_pixel(&cfg, id);
    assert_eq!(px, 0xFF02060C);
    // Alpha is opaque and red is the largest of the three channels.
    assert_eq!(px >> 24, 0xFF);
    let r = px & 0xFF;
    let g = (px >> 8) & 0xFF;
    let b = (px >> 16) & 0xFF;
    assert!(r > g && g > b);
}

#[test]
fn framebuffer_has_size_squared_slots_under_every_strategy() {
    let cfg = small_config();
    assert_eq!(run_serial(&cfg).len(), 64);
    assert_eq!(run_simd(&cfg).len(), 64);
    assert_eq!(run_rayon(&cfg).len(), 64);
}

#[test]
fn strategies_agree_byte_for_byte() {
    let cfg = small_config();
    let serial = run_serial(&cfg);
    let simd = run_simd(&cfg);
    let parallel = run_rayon(&cfg);
    assert_eq!(serial, simd);
    assert_eq!(serial, parallel);
}

#[test]
fn dispatcher_runs_every_strategy_to_the_same_frame() {
    let cfg = small_config();
    let a = render(&cfg, ExecutionStrategy::Sequential);
    let b = render(&cfg, ExecutionStrategy::DataParallel);
    let c = render(&cfg, ExecutionStrategy::Simd);
    assert_eq!(a, b);
    assert_eq!(a, c);
}

#[test]
fn serial_buffer_holds_the_kernel_value_for_each_index() {
    let cfg = small_config();
    let buf = run_serial(&cfg);
    for (i, px) in buf.iter().enumerate() {
        assert_eq!(*px, run_pixel(&cfg, i));
    }
}

#[test]
fn wide_kernel_matches_the_narrow_kernel_per_pixel() {
    let cfg = RenderConfig::standard();
    let ids = [
        0,
        cfg.size - 1,
        (cfg.size / 2) * cfg.size + cfg.size / 2,
        (cfg.size / 2) * cfg.size + cfg.size / 4,
        cfg.size * cfg.size - 1,
    ];
    for id in ids {
        assert_eq!(run_pixel_wide(&cfg, id), run_pixel(&cfg, id));
    }
}

#[test]
fn spare_lane_stays_zero_through_every_operation() {
    let a = Vec4::new(5_000_000, -2_000_000, 1_000_000);
    let b = Vec4::new(1_000_000, 1_000_000, 1_000_000);
    assert_eq!(a.w, 0);
    assert_eq!(a.add(b).w, 0);
    assert_eq!(a.sub(b).w, 0);
    // Broadcast subtraction touches all four lanes and must put the
    // spare lane back to zero.
    assert_eq!(a.sub_scalar(3_000_000).w, 0);
    assert_eq!(a.mul(250_000).w, 0);
    assert_eq!(a.normalize().w, 0);
}

#[test]
fn every_pixel_of_a_small_frame_is_opaque() {
    let cfg = small_config();
    for px in run_serial(&cfg) {
        assert_eq!(px >> 24, 0xFF);
    }
}
