//! Saturating fixed-point scalar arithmetic.
//!
//! Every scalar quantity of the renderer is an `i64` counted in
//! millionths: `SCALE` units stand for 1.0.  Each operation widens to
//! `i128`, computes exactly, and clamps the result into
//! `[-FIX_MAX, FIX_MAX]`, so all operations are total over `i64` and
//! no intermediate can overflow.

use vstd::prelude::*;

verus! {

/// Fixed-point units per 1.0.
pub const SCALE: i64 = 1_000_000;

/// Saturation bound of the fixed-point domain.
pub const FIX_MAX: i64 = 1_000_000_000_000_000_000;

/// Clamp a mathematical result into the fixed-point domain.
pub open spec fn spec_clamp(x: int) -> int {
    if x > FIX_MAX {
        FIX_MAX as int
    } else if x < -(FIX_MAX as int) {
        -(FIX_MAX as int)
    } else {
        x
    }
}

/// Division truncated toward zero (the machine behaviour), for a
/// positive divisor, expressed over Euclidean `/`.
pub open spec fn spec_tdiv(a: int, b: int) -> int
    recommends
        b > 0,
{
    if a >= 0 {
        a / b
    } else {
        -((-a) / b)
    }
}

/// Saturating fixed-point addition.
pub open spec fn spec_fadd(a: int, b: int) -> int {
    spec_clamp(a + b)
}

/// Saturating fixed-point subtraction.
pub open spec fn spec_fsub(a: int, b: int) -> int {
    spec_clamp(a - b)
}

/// Saturating fixed-point multiplication: the exact product, rescaled
/// by `SCALE` with truncation toward zero, then clamped.
pub open spec fn spec_fmul(a: int, b: int) -> int {
    spec_clamp(spec_tdiv(a * b, SCALE as int))
}

/// Saturating fixed-point division `a / (l / SCALE)`: used by
/// `normalize`, where `l` is a positive length.
pub open spec fn spec_fdiv_scale(a: int, l: int) -> int
    recommends
        l > 0,
{
    spec_clamp(spec_tdiv(a * (SCALE as int), l))
}

/// Floor of the square root, as a recursive specification.
pub open spec fn spec_isqrt(n: nat) -> nat
    decreases n,
{
    if n == 0 {
        0
    } else {
        let r = spec_isqrt((n - 1) as nat);
        if (r + 1) * (r + 1) <= n {
            r + 1
        } else {
            r
        }
    }
}

pub proof fn lemma_isqrt_bounds(n: nat)
    ensures
        spec_isqrt(n) * spec_isqrt(n) <= n,
        n < (spec_isqrt(n) + 1) * (spec_isqrt(n) + 1),
    decreases n,
{
    if n == 0 {
        assert(spec_isqrt(0) == 0);
        assert(n < (spec_isqrt(n) + 1) * (spec_isqrt(n) + 1)) by (nonlinear_arith)
            requires
                n == 0,
                spec_isqrt(n) == 0;
    } else {
        lemma_isqrt_bounds((n - 1) as nat);
        let r = spec_isqrt((n - 1) as nat);
        assert(r * r <= n - 1);
        assert(n - 1 < (r + 1) * (r + 1));
        assert(spec_isqrt(n) == (if (r + 1) * (r + 1) <= n {
            r + 1
        } else {
            r
        }));
        if (r + 1) * (r + 1) <= n {
            assert(spec_isqrt(n) == r + 1);
            assert(n < (spec_isqrt(n) + 1) * (spec_isqrt(n) + 1)) by (nonlinear_arith)
                requires
                    spec_isqrt(n) == r + 1,
                    n <= (r + 1) * (r + 1);
        } else {
            assert(r * r <= n);
            assert(n < (r + 1) * (r + 1));
        }
    }
}

pub proof fn lemma_isqrt_unique(n: nat, r: nat)
    requires
        r * r <= n,
        n < (r + 1) * (r + 1),
    ensures
        r == spec_isqrt(n),
{
    lemma_isqrt_bounds(n);
    let s = spec_isqrt(n);
    if r < s {
        assert((r + 1) * (r + 1) <= s * s) by (nonlinear_arith)
            requires
                r + 1 <= s;
    } else if s < r {
        assert((s + 1) * (s + 1) <= r * r) by (nonlinear_arith)
            requires
                s + 1 <= r;
    }
}

/// Clamp an exact wide intermediate back into the fixed-point domain.
fn clamp128(s: i128) -> (r: i64)
    ensures
        r as int == spec_clamp(s as int),
{
    if s > FIX_MAX as i128 {
        FIX_MAX
    } else if s < -(FIX_MAX as i128) {
        -FIX_MAX
    } else {
        s as i64
    }
}

/// Truncating division of a wide intermediate by a positive divisor,
/// clamped into the fixed-point domain.
fn tdiv_clamp(p: i128, d: i128) -> (r: i64)
    requires
        d > 0,
        p > i128::MIN,
    ensures
        r as int == spec_clamp(spec_tdiv(p as int, d as int)),
{
    if p >= 0 {
        let q: u128 = (p as u128) / (d as u128);
        if q > FIX_MAX as u128 {
            FIX_MAX
        } else {
            q as i64
        }
    } else {
        let m: u128 = (-p) as u128;
        let q: u128 = m / (d as u128);
        if q > FIX_MAX as u128 {
            -FIX_MAX
        } else {
            -(q as i64)
        }
    }
}

pub fn fadd(a: i64, b: i64) -> (r: i64)
    ensures
        r as int == spec_fadd(a as int, b as int),
{
    clamp128(a as i128 + b as i128)
}

pub fn fsub(a: i64, b: i64) -> (r: i64)
    ensures
        r as int == spec_fsub(a as int, b as int),
{
    clamp128(a as i128 - b as i128)
}

pub fn fmul(a: i64, b: i64) -> (r: i64)
    ensures
        r as int == spec_fmul(a as int, b as int),
{
    proof {
        assert((a as int) * (b as int) < i128::MAX && (a as int) * (b as int) > i128::MIN)
            by (nonlinear_arith)
            requires
                -0x8000_0000_0000_0000 <= a as int <= 0x7fff_ffff_ffff_ffff,
                -0x8000_0000_0000_0000 <= b as int <= 0x7fff_ffff_ffff_ffff;
    }
    let p: i128 = (a as i128) * (b as i128);
    tdiv_clamp(p, SCALE as i128)
}

/// `a` rescaled by `SCALE / l`, for a positive `l`.
pub fn fdiv_scale(a: i64, l: i64) -> (r: i64)
    requires
        l > 0,
    ensures
        r as int == spec_fdiv_scale(a as int, l as int),
{
    proof {
        assert((a as int) * (SCALE as int) < i128::MAX && (a as int) * (SCALE as int)
            > i128::MIN) by (nonlinear_arith)
            requires
                -0x8000_0000_0000_0000 <= a as int <= 0x7fff_ffff_ffff_ffff;
    }
    let p: i128 = (a as i128) * (SCALE as i128);
    tdiv_clamp(p, l as i128)
}

/// Floor of the square root of an exact wide intermediate.
pub fn isqrt(n: u128) -> (r: u64)
    ensures
        r as nat == spec_isqrt(n as nat),
{
    let mut lo: u128 = 0;
    let mut hi: u128 = 0x1_0000_0000_0000_0000;
    proof {
        assert((n as int) < 0x1_0000_0000_0000_0000 * 0x1_0000_0000_0000_0000);
    }
    while lo + 1 < hi
        invariant
            lo < hi,
            hi <= 0x1_0000_0000_0000_0000,
            (lo as int) * (lo as int) <= n as int,
            (n as int) < (hi as int) * (hi as int),
        decreases hi - lo,
    {
        let mid: u128 = lo + (hi - lo) / 2;
        proof {
            assert((mid as int) * (mid as int) <= u128::MAX) by (nonlinear_arith)
                requires
                    (mid as int) < 0x1_0000_0000_0000_0000;
        }
        let sq: u128 = mid * mid;
        if sq <= n {
            lo = mid;
        } else {
            hi = mid;
        }
    }
    proof {
        lemma_isqrt_unique(n as nat, lo as nat);
    }
    lo as u64
}

} // verus!
