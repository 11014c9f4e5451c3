//! The per-pixel kernel and the frame drivers: pixel index to
//! normalized device ray, the full composition down to one packed RGBA
//! value, and the strategies that apply it across the framebuffer.

use vstd::prelude::*;

use rayon::iter::{IndexedParallelIterator, IntoParallelIterator, ParallelIterator};

use crate::fixed::{spec_tdiv, SCALE};
use crate::scene::{color, normal, spec_albedo, spec_normal};
use crate::shade::{shade, spec_shade};
use crate::trace::{spec_trace, trace, HitResult};
use crate::vec3::{spec_vadd, spec_vmul, spec_vnorm, v3, V3, Vec3};

verus! {

/// Explicit render configuration in place of compiled-in constants:
/// image width and height (square), tracer step bound, hit and normal
/// threshold, and benchmark repetition count.
#[derive(Clone, Copy, PartialEq, Eq, Structural, Debug)]
pub struct RenderConfig {
    pub size: usize,
    pub iterations: usize,
    pub epsilon: i64,
    pub num_runs: usize,
}

impl RenderConfig {
    pub open spec fn wf(self) -> bool {
        &&& 0 < self.size <= 0xFFFF
        &&& self.epsilon > 0
    }

    /// The reference configuration: a 1024 x 1024 image, 64 tracer
    /// steps, a threshold of 0.01.
    pub fn standard() -> (r: RenderConfig)
        ensures
            r.wf(),
            r.size == 1024,
            r.iterations == 64,
            r.epsilon as int == SCALE / 100,
            r.num_runs == 50,
    {
        RenderConfig { size: 1024, iterations: 64, epsilon: SCALE / 100, num_runs: 50 }
    }
}

/// Normalized device x of pixel column `xi`: `xi / (size/2) - 1`.
pub open spec fn spec_ndc_x(size: int, xi: int) -> int {
    spec_tdiv(xi * 2 * SCALE, size) - SCALE
}

/// Normalized device y of pixel row `yi`: `-(yi / (size/2)) + 1`, so
/// image row 0 is the top of the frame.
pub open spec fn spec_ndc_y(size: int, yi: int) -> int {
    SCALE - spec_tdiv(yi * 2 * SCALE, size)
}

fn ndc_x(size: usize, xi: usize) -> (r: i64)
    requires
        0 < size <= 0xFFFF,
        xi < size,
    ensures
        r as int == spec_ndc_x(size as int, xi as int),
{
    let num: u64 = (xi as u64) * 2_000_000;
    let q: u64 = num / (size as u64);
    proof {
        assert(num as int <= (size as int) * (2 * SCALE as int) && (num as int) / (size as int)
            <= 2 * SCALE as int) by (nonlinear_arith)
            requires
                num as int == (xi as int) * 2 * (SCALE as int),
                0 <= xi as int && (xi as int) < size as int,
                0 < size as int,
                SCALE == 1_000_000;
    }
    q as i64 - SCALE
}

fn ndc_y(size: usize, yi: usize) -> (r: i64)
    requires
        0 < size <= 0xFFFF,
        yi < size,
    ensures
        r as int == spec_ndc_y(size as int, yi as int),
{
    let num: u64 = (yi as u64) * 2_000_000;
    let q: u64 = num / (size as u64);
    proof {
        assert(num as int <= (size as int) * (2 * SCALE as int) && (num as int) / (size as int)
            <= 2 * SCALE as int) by (nonlinear_arith)
            requires
                num as int == (yi as int) * 2 * (SCALE as int),
                0 <= yi as int && (yi as int) < size as int,
                0 < size as int,
                SCALE == 1_000_000;
    }
    SCALE - q as i64
}

/// One color channel packed to a byte: clamp into `[0, 1]`, scale by
/// 255, truncate.  A negative component - or the stand-in for a
/// degenerate value - packs to 0.
pub open spec fn spec_chan(c: int) -> int {
    let cc = if c < 0 {
        0
    } else if c > SCALE {
        SCALE as int
    } else {
        c
    };
    (cc * 255) / (SCALE as int)
}

/// Packed RGBA: alpha 0xFF in the high byte, then blue, green, red in
/// the low byte.
pub open spec fn spec_pack(col: V3) -> int {
    0xFF000000 + spec_chan(col.z) * 0x10000 + spec_chan(col.y) * 0x100 + spec_chan(col.x)
}

fn channel(c: i64) -> (r: u32)
    ensures
        r as int == spec_chan(c as int),
        r < 256,
{
    let cc: i64 = if c < 0 {
        0
    } else if c > SCALE {
        SCALE
    } else {
        c
    };
    let scaled: u64 = (cc as u64) * 255;
    proof {
        assert((scaled as int) / (SCALE as int) <= 255) by (nonlinear_arith)
            requires
                0 <= scaled as int <= 255 * (SCALE as int),
                SCALE == 1_000_000;
    }
    (scaled / (SCALE as u64)) as u32
}

fn rgb(col: Vec3) -> (px: u32)
    ensures
        px as int == spec_pack(col@),
{
    let r = channel(col.x);
    let g = channel(col.y);
    let b = channel(col.z);
    let px: u32 = 0xFF00_0000u32 | (b << 16u32) | (g << 8u32) | r;
    proof {
        assert(0xFF00_0000u32 | (b << 16u32) | (g << 8u32) | r == 0xFF000000u32 + (b << 16u32)
            + (g << 8u32) + r) by (bit_vector)
            requires
                r < 256u32 && g < 256u32 && b < 256u32;
        assert((b << 16u32) == b * 0x10000u32) by (bit_vector)
            requires
                b < 256u32;
        assert((g << 8u32) == g * 0x100u32) by (bit_vector)
            requires
                g < 256u32;
    }
    px
}

/// The whole pixel: index to camera ray, the march, and shading at the
/// resolved point.  A miss shades at the camera origin itself (`t`
/// defaulted to 0) rather than a distinct background color; that quirk
/// is part of the reference image.
pub open spec fn spec_pixel(cfg: RenderConfig, id: int) -> int {
    let size = cfg.size as int;
    let nx = spec_ndc_x(size, id % size);
    let ny = spec_ndc_y(size, id / size);
    let up = v3(0, SCALE as int, 0);
    let ro = v3(0, 0, -2 * SCALE);
    let rd = spec_vnorm(
        spec_vadd(
            spec_vadd(v3(0, 0, SCALE as int), spec_vmul(up, ny)),
            spec_vmul(v3(SCALE as int, 0, 0), nx),
        ),
    );
    let f = match spec_trace(ro, rd, 0, cfg.epsilon as int, cfg.iterations as nat) {
        Some(t) => t,
        None => 0,
    };
    let hp = spec_vadd(ro, spec_vmul(rd, f));
    spec_pack(spec_shade(spec_albedo(hp), up, spec_normal(hp, cfg.epsilon as int)))
}

/// Evaluate the kernel for one pixel index.
pub fn run_pixel(cfg: &RenderConfig, id: usize) -> (px: u32)
    requires
        cfg.wf(),
        id < cfg.size * cfg.size,
    ensures
        px as int == spec_pixel(*cfg, id as int),
{
    let xi = id % cfg.size;
    let yi = id / cfg.size;
    proof {
        assert((id as int) / (cfg.size as int) < cfg.size as int) by (nonlinear_arith)
            requires
                0 < cfg.size as int,
                0 <= id as int,
                (id as int) < (cfg.size as int) * (cfg.size as int);
    }
    let nx = ndc_x(cfg.size, xi);
    let ny = ndc_y(cfg.size, yi);
    let up = Vec3::new(0, SCALE, 0);
    let ro = Vec3::new(0, 0, -2 * SCALE);
    let rd = Vec3::new(0, 0, SCALE).add(up.mul(ny)).add(Vec3::new(SCALE, 0, 0).mul(nx))
        .normalize();
    let hit = trace(ro, rd, cfg.epsilon, cfg.iterations);
    let f: i64 = match hit {
        HitResult::Hit(t) => t,
        HitResult::Miss => 0,
    };
    let hp = ro.add(rd.mul(f));
    rgb(shade(color(hp), up, normal(hp, cfg.epsilon)))
}

/// Whether `buf` is the framebuffer of `cfg`: exactly `size * size`
/// packed values, row-major, slot `i` holding the kernel's value for
/// pixel index `i`.  Every execution strategy meets this same
/// predicate, so any two produce identical buffers.
pub open spec fn is_framebuffer(cfg: RenderConfig, buf: Seq<u32>) -> bool {
    &&& buf.len() == (cfg.size as int) * (cfg.size as int)
    &&& forall|i: int| 0 <= i < buf.len() ==> (#[trigger] buf[i]) as int == spec_pixel(cfg, i)
}

/// Sequential strategy: one thread walks every pixel index in order.
pub fn run_serial(cfg: &RenderConfig) -> (buf: Vec<u32>)
    requires
        cfg.wf(),
    ensures
        is_framebuffer(*cfg, buf@),
{
    proof {
        assert((cfg.size as int) * (cfg.size as int) <= 0xFFFF * 0xFFFF) by (nonlinear_arith)
            requires
                0 < cfg.size as int <= 0xFFFF;
    }
    let n: usize = cfg.size * cfg.size;
    let mut buf: Vec<u32> = Vec::new();
    let mut i: usize = 0;
    while i < n
        invariant
            i <= n,
            n == (cfg.size as int) * (cfg.size as int),
            cfg.wf(),
            buf@.len() == i as int,
            forall|j: int| 0 <= j < i as int ==> (#[trigger] buf@[j]) as int == spec_pixel(*cfg, j),
        decreases n - i,
    {
        let px = run_pixel(cfg, i);
        buf.push(px);
        i = i + 1;
    }
    buf
}

/// The interchangeable execution strategies this library can run
/// itself.  The GPU compute and ahead-of-time SIMT kernels need a
/// device and an external compiler, so they live with the harness that
/// owns those; whatever runs the kernel must fill the same framebuffer.
#[derive(Clone, Copy, PartialEq, Eq, Structural, Debug)]
pub enum ExecutionStrategy {
    Sequential,
    DataParallel,
    Simd,
}

/// Render one frame under the chosen strategy.  Every strategy meets
/// the same framebuffer contract, so the choice never changes the
/// image.
pub fn render(cfg: &RenderConfig, strategy: ExecutionStrategy) -> (buf: Vec<u32>)
    requires
        cfg.wf(),
    ensures
        is_framebuffer(*cfg, buf@),
{
    match strategy {
        ExecutionStrategy::Sequential => run_serial(cfg),
        ExecutionStrategy::DataParallel => run_rayon(cfg),
        ExecutionStrategy::Simd => crate::wide::run_simd(cfg),
    }
}

/// Cross-strategy consistency: any two framebuffers rendered from the
/// same configuration are byte-identical, whichever strategies wrote
/// them.
pub proof fn lemma_strategies_agree(cfg: RenderConfig, a: Seq<u32>, b: Seq<u32>)
    requires
        is_framebuffer(cfg, a),
        is_framebuffer(cfg, b),
    ensures
        a == b,
{
    assert forall|i: int| 0 <= i < a.len() implies a[i] == b[i] by {
        assert(a[i] as int == spec_pixel(cfg, i));
        assert(b[i] as int == spec_pixel(cfg, i));
    }
    assert(a =~= b);
}

/// CPU data-parallel strategy.  Relies on rayon's `into_par_iter`,
/// `map` and `collect` over a range: an indexed parallel iterator
/// collects its mapped items in index order whatever the completion
/// order of the workers, so slot `i` holds the closure's value for
/// index `i`; the closure only calls the verified `run_pixel`.
#[verifier::external_body]
pub fn run_rayon(cfg: &RenderConfig) -> (buf: Vec<u32>)
    requires
        cfg.wf(),
    ensures
        is_framebuffer(*cfg, buf@),
{
    (0..cfg.size * cfg.size).into_par_iter().map(|i| run_pixel(cfg, i)).collect()
}

} // verus!
