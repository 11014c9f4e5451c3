//! The SIMD-vectorized variant of the kernel: the same math lifted
//! onto fixed-width 4-lane vectors, one pixel's 3-vector math per
//! lane group.  Lane 3 is unused and held at exactly 0 by construction
//! after every operation; each operation is proved to compute the very
//! same values as the narrow kernel, so the two strategies produce
//! byte-identical framebuffers.

use vstd::prelude::*;

use crate::fixed::{fadd, fdiv_scale, fmul, fsub, isqrt, FIX_MAX, SCALE};
use crate::render::{spec_pixel, is_framebuffer, spec_ndc_x, spec_ndc_y, spec_pack, spec_chan, RenderConfig};
use crate::scene::{spec_albedo, spec_normal, spec_scene, spec_sphere2_center};
use crate::shade::{spec_shade, AMBIENT};
use crate::trace::{spec_trace, HitResult};
use crate::vec3::{
    lemma_vdot_self_nonneg, lemma_vlen_range, spec_vadd, spec_vdot, spec_vlen, spec_vmul,
    spec_vnorm, spec_vsub, spec_vsub_scalar, v3, V3, LEN_MAX,
};

verus! {

/// A 4-lane vector: three live components and one spare lane that
/// every operation leaves at exactly 0.
#[derive(Clone, Copy, PartialEq, Eq, Structural, Debug)]
pub struct Vec4 {
    pub x: i64,
    pub y: i64,
    pub z: i64,
    pub w: i64,
}

impl View for Vec4 {
    type V = V3;

    open spec fn view(&self) -> V3 {
        V3 { x: self.x as int, y: self.y as int, z: self.z as int }
    }
}

impl Vec4 {
    /// The lane invariant: the spare lane holds exactly 0.
    pub open spec fn lane_ok(self) -> bool {
        self.w == 0
    }

    pub fn new(x: i64, y: i64, z: i64) -> (r: Vec4)
        ensures
            r.lane_ok(),
            r@ == v3(x as int, y as int, z as int),
    {
        Vec4 { x, y, z, w: 0 }
    }

    pub fn zero() -> (r: Vec4)
        ensures
            r.lane_ok(),
            r@ == v3(0, 0, 0),
    {
        Vec4 { x: 0, y: 0, z: 0, w: 0 }
    }

    pub fn sx(self, x: i64) -> (r: Vec4)
        ensures
            r.lane_ok() == self.lane_ok(),
            r@ == (V3 { x: x as int, ..self@ }),
    {
        Vec4 { x, ..self }
    }

    pub fn sy(self, y: i64) -> (r: Vec4)
        ensures
            r.lane_ok() == self.lane_ok(),
            r@ == (V3 { y: y as int, ..self@ }),
    {
        Vec4 { y, ..self }
    }

    pub fn sz(self, z: i64) -> (r: Vec4)
        ensures
            r.lane_ok() == self.lane_ok(),
            r@ == (V3 { z: z as int, ..self@ }),
    {
        Vec4 { z, ..self }
    }

    /// Lane-wise addition; the spare lanes add to 0 + 0 = 0.
    pub fn add(self, other: Vec4) -> (r: Vec4)
        requires
            self.lane_ok(),
            other.lane_ok(),
        ensures
            r.lane_ok(),
            r@ == spec_vadd(self@, other@),
    {
        Vec4 {
            x: fadd(self.x, other.x),
            y: fadd(self.y, other.y),
            z: fadd(self.z, other.z),
            w: fadd(self.w, other.w),
        }
    }

    pub fn sub(self, other: Vec4) -> (r: Vec4)
        requires
            self.lane_ok(),
            other.lane_ok(),
        ensures
            r.lane_ok(),
            r@ == spec_vsub(self@, other@),
    {
        Vec4 {
            x: fsub(self.x, other.x),
            y: fsub(self.y, other.y),
            z: fsub(self.z, other.z),
            w: fsub(self.w, other.w),
        }
    }

    /// Subtract a scalar from every lane, then put the spare lane back
    /// to 0: this operation is not lane-preserving by itself.
    pub fn sub_scalar(self, s: i64) -> (r: Vec4)
        ensures
            r.lane_ok(),
            r@ == spec_vsub_scalar(self@, s as int),
    {
        let broad = Vec4 {
            x: fsub(self.x, s),
            y: fsub(self.y, s),
            z: fsub(self.z, s),
            w: fsub(self.w, s),
        };
        Vec4 { w: 0, ..broad }
    }

    /// Scale every lane; the spare lane scales to 0 * s = 0.
    pub fn mul(self, s: i64) -> (r: Vec4)
        requires
            self.lane_ok(),
        ensures
            r.lane_ok(),
            r@ == spec_vmul(self@, s as int),
    {
        let r = Vec4 {
            x: fmul(self.x, s),
            y: fmul(self.y, s),
            z: fmul(self.z, s),
            w: fmul(self.w, s),
        };
        proof {
            assert(0 * (s as int) == 0);
        }
        r
    }

    /// Lane-wise product summed across all four lanes; the spare lane
    /// contributes exactly 0.
    pub fn dot(self, other: Vec4) -> (r: i64)
        requires
            self.lane_ok(),
            other.lane_ok(),
        ensures
            r as int == spec_vdot(self@, other@),
    {
        let mx = fmul(self.x, other.x);
        let my = fmul(self.y, other.y);
        let mz = fmul(self.z, other.z);
        let mw = fmul(self.w, other.w);
        let s: i128 = mx as i128 + my as i128 + mz as i128 + mw as i128;
        proof {
            assert(0 * 0 == 0);
        }
        if s > FIX_MAX as i128 {
            FIX_MAX
        } else if s < -(FIX_MAX as i128) {
            -FIX_MAX
        } else {
            s as i64
        }
    }

    pub fn length(self) -> (r: i64)
        requires
            self.lane_ok(),
        ensures
            r as int == spec_vlen(self@),
            0 <= r <= LEN_MAX,
    {
        proof {
            lemma_vdot_self_nonneg(self@);
            lemma_vlen_range(self@);
        }
        let q = self.dot(self);
        proof {
            assert((q as int) * (SCALE as int) <= (FIX_MAX as int) * (SCALE as int))
                by (nonlinear_arith)
                requires
                    0 <= q as int <= FIX_MAX as int;
        }
        let n: u128 = (q as u128) * (SCALE as u128);
        let r = isqrt(n);
        r as i64
    }

    /// Divide every lane by the length; the spare lane divides to
    /// 0 / l = 0.
    pub fn normalize(self) -> (r: Vec4)
        requires
            self.lane_ok(),
        ensures
            r.lane_ok(),
            r@ == spec_vnorm(self@),
    {
        let l = self.length();
        if l <= 0 {
            Vec4::zero()
        } else {
            let r = Vec4 {
                x: fdiv_scale(self.x, l),
                y: fdiv_scale(self.y, l),
                z: fdiv_scale(self.z, l),
                w: fdiv_scale(self.w, l),
            };
            proof {
                assert(0 * (SCALE as int) == 0);
            }
            r
        }
    }
}

fn sphere2_center4() -> (r: Vec4)
    ensures
        r.lane_ok(),
        r@ == spec_sphere2_center(),
{
    Vec4::new(-2 * SCALE, 0, SCALE)
}

fn scene4(p: Vec4) -> (r: i64)
    requires
        p.lane_ok(),
    ensures
        r as int == spec_scene(p@),
{
    let a = fsub(p.length(), SCALE);
    let b = fsub(p.sub(sphere2_center4()).length(), SCALE);
    if a < b {
        a
    } else {
        b
    }
}

fn color4(p: Vec4) -> (r: Vec4)
    requires
        p.lane_ok(),
    ensures
        r.lane_ok(),
        r@ == spec_albedo(p@),
{
    let a = fsub(p.length(), SCALE);
    let b = fsub(p.sub(sphere2_center4()).length(), SCALE);
    if a < b {
        Vec4::new(SCALE, SCALE / 2, SCALE / 5)
    } else {
        Vec4::new(3 * SCALE / 10, 7 * SCALE / 10, 2 * SCALE / 5)
    }
}

fn normal4(p: Vec4, e: i64) -> (r: Vec4)
    requires
        p.lane_ok(),
    ensures
        r.lane_ok(),
        r@ == spec_normal(p@, e as int),
{
    let nx = fsub(scene4(p.sx(fadd(p.x, e))), scene4(p.sx(fsub(p.x, e))));
    let ny = fsub(scene4(p.sy(fadd(p.y, e))), scene4(p.sy(fsub(p.y, e))));
    let nz = fsub(scene4(p.sz(fadd(p.z, e))), scene4(p.sz(fsub(p.z, e))));
    Vec4::new(nx, ny, nz).normalize()
}

fn trace4(ro: Vec4, rd: Vec4, eps: i64, iters: usize) -> (h: HitResult)
    requires
        ro.lane_ok(),
        rd.lane_ok(),
    ensures
        h.as_opt() == spec_trace(ro@, rd@, 0, eps as int, iters as nat),
{
    let mut p = ro;
    let mut t: i64 = 0;
    let mut i: usize = 0;
    while i < iters
        invariant
            i <= iters,
            p.lane_ok(),
            rd.lane_ok(),
            spec_trace(ro@, rd@, 0, eps as int, iters as nat) == spec_trace(
                p@,
                rd@,
                t as int,
                eps as int,
                (iters - i) as nat,
            ),
        decreases iters - i,
    {
        let d = scene4(p);
        if d < eps {
            return HitResult::Hit(t);
        }
        t = fadd(t, d);
        p = p.add(rd.mul(d));
        i = i + 1;
    }
    HitResult::Miss
}

fn shade4(col: Vec4, l: Vec4, n: Vec4) -> (r: Vec4)
    requires
        col.lane_ok(),
        l.lane_ok(),
        n.lane_ok(),
    ensures
        r.lane_ok(),
        r@ == spec_shade(col@, l@, n@),
{
    let cos_theta = l.dot(n);
    if cos_theta < -AMBIENT {
        return Vec4::zero();
    }
    col.mul(cos_theta).add(col.mul(AMBIENT))
}

fn channel4(c: i64) -> (r: u32)
    ensures
        r as int == spec_chan(c as int),
        r < 256,
{
    let cc: i64 = if c < 0 {
        0
    } else if c > SCALE {
        SCALE
    } else {
        c
    };
    let scaled: u64 = (cc as u64) * 255;
    proof {
        assert((scaled as int) / (SCALE as int) <= 255) by (nonlinear_arith)
            requires
                0 <= scaled as int <= 255 * (SCALE as int),
                SCALE == 1_000_000;
    }
    (scaled / (SCALE as u64)) as u32
}

/// Pack one lane group: clamp each live lane against 1.0, scale by 255
/// and truncate, then lay the bytes out as the narrow kernel does.
fn rgb4(col: Vec4) -> (px: u32)
    ensures
        px as int == spec_pack(col@),
{
    let r = channel4(col.x);
    let g = channel4(col.y);
    let b = channel4(col.z);
    let px: u32 = 0xFF00_0000u32 | (b << 16u32) | (g << 8u32) | r;
    proof {
        assert(0xFF00_0000u32 | (b << 16u32) | (g << 8u32) | r == 0xFF000000u32 + (b << 16u32)
            + (g << 8u32) + r) by (bit_vector)
            requires
                r < 256u32 && g < 256u32 && b < 256u32;
        assert((b << 16u32) == b * 0x10000u32) by (bit_vector)
            requires
                b < 256u32;
        assert((g << 8u32) == g * 0x100u32) by (bit_vector)
            requires
                g < 256u32;
    }
    px
}

fn ndc_x4(size: usize, xi: usize) -> (r: i64)
    requires
        0 < size <= 0xFFFF,
        xi < size,
    ensures
        r as int == spec_ndc_x(size as int, xi as int),
{
    let num: u64 = (xi as u64) * 2_000_000;
    let q: u64 = num / (size as u64);
    proof {
        assert(num as int <= (size as int) * (2 * SCALE as int) && (num as int) / (size as int)
            <= 2 * SCALE as int) by (nonlinear_arith)
            requires
                num as int == (xi as int) * 2 * (SCALE as int),
                0 <= xi as int && (xi as int) < size as int,
                0 < size as int,
                SCALE == 1_000_000;
    }
    q as i64 - SCALE
}

fn ndc_y4(size: usize, yi: usize) -> (r: i64)
    requires
        0 < size <= 0xFFFF,
        yi < size,
    ensures
        r as int == spec_ndc_y(size as int, yi as int),
{
    let num: u64 = (yi as u64) * 2_000_000;
    let q: u64 = num / (size as u64);
    proof {
        assert(num as int <= (size as int) * (2 * SCALE as int) && (num as int) / (size as int)
            <= 2 * SCALE as int) by (nonlinear_arith)
            requires
                num as int == (yi as int) * 2 * (SCALE as int),
                0 <= yi as int && (yi as int) < size as int,
                0 < size as int,
                SCALE == 1_000_000;
    }
    SCALE - q as i64
}

/// The lane-group kernel: proved to return exactly the narrow kernel's
/// pixel, so the SIMD strategy is byte-identical to the sequential one.
pub fn run_pixel_wide(cfg: &RenderConfig, id: usize) -> (px: u32)
    requires
        cfg.wf(),
        id < cfg.size * cfg.size,
    ensures
        px as int == spec_pixel(*cfg, id as int),
{
    let xi = id % cfg.size;
    let yi = id / cfg.size;
    proof {
        assert((id as int) / (cfg.size as int) < cfg.size as int) by (nonlinear_arith)
            requires
                0 < cfg.size as int,
                0 <= id as int,
                (id as int) < (cfg.size as int) * (cfg.size as int);
    }
    let nx = ndc_x4(cfg.size, xi);
    let ny = ndc_y4(cfg.size, yi);
    let up = Vec4::new(0, SCALE, 0);
    let ro = Vec4::new(0, 0, -2 * SCALE);
    let rd = Vec4::new(0, 0, SCALE).add(up.mul(ny)).add(Vec4::new(SCALE, 0, 0).mul(nx))
        .normalize();
    let hit = trace4(ro, rd, cfg.epsilon, cfg.iterations);
    let f: i64 = match hit {
        HitResult::Hit(t) => t,
        HitResult::Miss => 0,
    };
    let hp = ro.add(rd.mul(f));
    rgb4(shade4(color4(hp), up, normal4(hp, cfg.epsilon)))
}

/// SIMD-vectorized strategy: the lane-group kernel applied to every
/// pixel index on one thread.
#[verifier::rlimit(50)]
pub fn run_simd(cfg: &RenderConfig) -> (buf: Vec<u32>)
    requires
        cfg.wf(),
    ensures
        is_framebuffer(*cfg, buf@),
{
    proof {
        assert((cfg.size as int) * (cfg.size as int) <= 0xFFFF * 0xFFFF) by (nonlinear_arith)
            requires
                0 < cfg.size as int <= 0xFFFF;
    }
    let n: usize = cfg.size * cfg.size;
    let mut buf: Vec<u32> = Vec::new();
    let mut i: usize = 0;
    while i < n
        invariant
            i <= n,
            n == (cfg.size as int) * (cfg.size as int),
            cfg.wf(),
            buf@.len() == i as int,
            forall|j: int| 0 <= j < i as int ==> (#[trigger] buf@[j]) as int == spec_pixel(*cfg, j),
        decreases n - i,
    {
        let px = run_pixel_wide(cfg, i);
        buf.push(px);
        i = i + 1;
    }
    buf
}

} // verus!
