//! Three-component fixed-point vectors: axis replacement, dot product,
//! length and normalization, and component-wise add, sub and scalar mul.

use vstd::prelude::*;

use crate::fixed::{
    fadd, fdiv_scale, fmul, fsub, isqrt, lemma_isqrt_bounds, spec_clamp, spec_fadd,
    spec_fdiv_scale, spec_fmul, spec_fsub, spec_isqrt, spec_tdiv, FIX_MAX, SCALE,
};

verus! {

/// Largest value the fixed-point length can take:
/// `spec_isqrt(SCALE * FIX_MAX)`.
pub const LEN_MAX: i64 = 1_000_000_000_000;

/// The mathematical model of a vector: three unbounded integers, each
/// counted in `SCALE` units per 1.0.
pub ghost struct V3 {
    pub x: int,
    pub y: int,
    pub z: int,
}

pub open spec fn v3(x: int, y: int, z: int) -> V3 {
    V3 { x, y, z }
}

/// A vector of the renderer: three fixed-point components.
#[derive(Clone, Copy, PartialEq, Eq, Structural, Debug)]
pub struct Vec3 {
    pub x: i64,
    pub y: i64,
    pub z: i64,
}

impl View for Vec3 {
    type V = V3;

    open spec fn view(&self) -> V3 {
        V3 { x: self.x as int, y: self.y as int, z: self.z as int }
    }
}

pub open spec fn spec_vadd(a: V3, b: V3) -> V3 {
    V3 { x: spec_fadd(a.x, b.x), y: spec_fadd(a.y, b.y), z: spec_fadd(a.z, b.z) }
}

pub open spec fn spec_vsub(a: V3, b: V3) -> V3 {
    V3 { x: spec_fsub(a.x, b.x), y: spec_fsub(a.y, b.y), z: spec_fsub(a.z, b.z) }
}

/// Component-wise subtraction of one scalar from every component.
pub open spec fn spec_vsub_scalar(a: V3, s: int) -> V3 {
    V3 { x: spec_fsub(a.x, s), y: spec_fsub(a.y, s), z: spec_fsub(a.z, s) }
}

pub open spec fn spec_vmul(a: V3, s: int) -> V3 {
    V3 { x: spec_fmul(a.x, s), y: spec_fmul(a.y, s), z: spec_fmul(a.z, s) }
}

pub open spec fn spec_vdot(a: V3, b: V3) -> int {
    spec_clamp(spec_fmul(a.x, b.x) + spec_fmul(a.y, b.y) + spec_fmul(a.z, b.z))
}

/// `length(v) = sqrt(dot(v, v))`, carried out on the exact scaled
/// square sum so the root comes back in `SCALE` units.
pub open spec fn spec_vlen(a: V3) -> int {
    spec_isqrt((SCALE * spec_vdot(a, a)) as nat) as int
}

/// `normalize(v) = v / length(v)`; a vector whose length underflows to
/// zero is mapped to the zero vector, the fixed-point stand-in for the
/// accepted degenerate case.
pub open spec fn spec_vnorm(a: V3) -> V3 {
    let l = spec_vlen(a);
    if l <= 0 {
        v3(0, 0, 0)
    } else {
        V3 {
            x: spec_fdiv_scale(a.x, l),
            y: spec_fdiv_scale(a.y, l),
            z: spec_fdiv_scale(a.z, l),
        }
    }
}

/// A square rescaled with truncation is still nonnegative.
proof fn lemma_fmul_self_nonneg(x: int)
    ensures
        spec_fmul(x, x) >= 0,
{
    assert(x * x >= 0) by (nonlinear_arith);
    assert(spec_tdiv(x * x, SCALE as int) >= 0) by (nonlinear_arith)
        requires
            x * x >= 0;
}

pub proof fn lemma_vdot_self_nonneg(a: V3)
    ensures
        0 <= spec_vdot(a, a) <= FIX_MAX,
{
    lemma_fmul_self_nonneg(a.x);
    lemma_fmul_self_nonneg(a.y);
    lemma_fmul_self_nonneg(a.z);
}

pub proof fn lemma_vlen_range(a: V3)
    ensures
        0 <= spec_vlen(a) <= LEN_MAX,
{
    lemma_vdot_self_nonneg(a);
    let n = (SCALE * spec_vdot(a, a)) as nat;
    assert(SCALE * spec_vdot(a, a) <= SCALE * (FIX_MAX as int)) by (nonlinear_arith)
        requires
            spec_vdot(a, a) <= FIX_MAX;
    lemma_isqrt_bounds(n);
    let r = spec_isqrt(n);
    if r > LEN_MAX {
        assert((LEN_MAX + 1) * (LEN_MAX + 1) <= r * r) by (nonlinear_arith)
            requires
                LEN_MAX + 1 <= r;
    }
}

pub open spec fn spec_abs(x: int) -> int {
    if x < 0 {
        -x
    } else {
        x
    }
}

/// On the component range of interest, squaring then rescaling never
/// clamps: the product truncates exactly.
proof fn lemma_fmul_self_exact(x: int)
    requires
        -500_000_000_000 <= x <= 500_000_000_000,
    ensures
        spec_fmul(x, x) == (x * x) / 1_000_000,
        0 <= spec_fmul(x, x) <= 250_000_000_000_000_000,
        1_000_000 * ((x * x) / 1_000_000) <= x * x,
        x * x < 1_000_000 * ((x * x) / 1_000_000) + 1_000_000,
{
    assert(0 <= x * x && x * x <= 250_000_000_000_000_000_000_000) by (nonlinear_arith)
        requires
            -500_000_000_000 <= x <= 500_000_000_000;
    vstd::arithmetic::div_mod::lemma_fundamental_div_mod(x * x, 1_000_000);
    vstd::arithmetic::div_mod::lemma_div_is_ordered(
        x * x,
        250_000_000_000_000_000_000_000,
        1_000_000,
    );
    vstd::arithmetic::div_mod::lemma_div_pos_is_pos(x * x, 1_000_000);
}

/// On the same range, with a positive length that fits the length
/// bound, `normalize`'s per-component division never clamps either.
proof fn lemma_div_scale_exact(x: int, l: int)
    requires
        -500_000_000_000 <= x <= 500_000_000_000,
        1 <= l <= 1_000_000_000_000,
    ensures
        spec_abs(spec_fdiv_scale(x, l)) == (spec_abs(x) * 1_000_000) / l,
        l * ((spec_abs(x) * 1_000_000) / l) <= spec_abs(x) * 1_000_000,
        spec_abs(x) * 1_000_000 < l * ((spec_abs(x) * 1_000_000) / l) + l,
        0 <= spec_abs(spec_fdiv_scale(x, l)) <= 500_000_000_000_000_000,
{
    let u = spec_abs(x);
    let us = u * 1_000_000;
    let d = us / l;
    vstd::arithmetic::div_mod::lemma_fundamental_div_mod(us, l);
    vstd::arithmetic::div_mod::lemma_mod_bound(us, l);
    vstd::arithmetic::div_mod::lemma_div_pos_is_pos(us, l);
    vstd::arithmetic::div_mod::lemma_div_nonincreasing(us, l);
    assert(us <= 500_000_000_000_000_000);
    if x >= 0 {
        assert(spec_tdiv(x * 1_000_000, l) == d);
    } else {
        assert(-(x * 1_000_000) == us) by (nonlinear_arith)
            requires
                x < 0,
                u == -x,
                us == u * 1_000_000;
        assert(x * 1_000_000 < 0) by (nonlinear_arith)
            requires
                x < 0;
        assert(spec_tdiv(x * 1_000_000, l) == -d);
    }
}

/// Bracketing a truncated quotient squares to a bracket on its square.
proof fn lemma_sq_bracket(u: int, l: int, d: int)
    requires
        0 <= u,
        1 <= l,
        0 <= d,
        l * d <= u * 1_000_000,
        u * 1_000_000 < l * d + l,
    ensures
        (l * l) * (d * d) <= (u * u) * 1_000_000_000_000,
        (u * u) * 1_000_000_000_000 < (l * l) * ((d + 1) * (d + 1)),
{
    assert((l * d) * (l * d) <= (u * 1_000_000) * (u * 1_000_000)) by (nonlinear_arith)
        requires
            0 <= l * d,
            l * d <= u * 1_000_000;
    assert((u * 1_000_000) * (u * 1_000_000) < (l * d + l) * (l * d + l)) by (nonlinear_arith)
        requires
            0 <= u * 1_000_000,
            u * 1_000_000 < l * d + l;
    assert((l * d) * (l * d) == (l * l) * (d * d)) by (nonlinear_arith);
    assert((u * 1_000_000) * (u * 1_000_000) == (u * u) * 1_000_000_000_000) by (nonlinear_arith);
    assert((l * d + l) * (l * d + l) == (l * l) * ((d + 1) * (d + 1))) by (nonlinear_arith);
}

/// Normalization yields a unit vector: for any vector that is not
/// degenerate - its length at least 0.01 and its components within
/// 500000 - the length of `normalize(v)` is 1 within 0.02, and within
/// 0.001 once the vector is at least 0.1 long.
pub proof fn lemma_normalize_unit(a: V3)
    requires
        -500_000_000_000 <= a.x <= 500_000_000_000,
        -500_000_000_000 <= a.y <= 500_000_000_000,
        -500_000_000_000 <= a.z <= 500_000_000_000,
        spec_vlen(a) >= 10_000,
    ensures
        1_000_000 - 1_000 <= spec_vlen(spec_vnorm(a)) <= 1_000_000 + 20_000,
        spec_vlen(a) >= 100_000 ==> spec_vlen(spec_vnorm(a)) <= 1_000_000 + 1_000,
{
    let sigma = a.x * a.x + a.y * a.y + a.z * a.z;
    lemma_fmul_self_exact(a.x);
    lemma_fmul_self_exact(a.y);
    lemma_fmul_self_exact(a.z);
    let q = spec_fmul(a.x, a.x) + spec_fmul(a.y, a.y) + spec_fmul(a.z, a.z);
    assert(spec_vdot(a, a) == q);
    assert(1_000_000 * q <= sigma && sigma < 1_000_000 * q + 3_000_000);
    // The length brackets the square sum.
    let l = spec_vlen(a);
    lemma_vlen_range(a);
    lemma_isqrt_bounds((1_000_000 * q) as nat);
    assert(l * l <= 1_000_000 * q && 1_000_000 * q < (l + 1) * (l + 1));
    assert(l * l <= sigma);
    assert(sigma < (l + 1) * (l + 1) + 3_000_000);
    assert(10_000 <= l <= 1_000_000_000_000);
    // No component can be longer than the whole vector, up to rounding.
    assert((l + 200) * (l + 200) >= (l + 1) * (l + 1) + 3_000_000) by (nonlinear_arith)
        requires
            l >= 10_000;
    let ux = spec_abs(a.x);
    let uy = spec_abs(a.y);
    let uz = spec_abs(a.z);
    assert(ux * ux == a.x * a.x) by (nonlinear_arith)
        requires
            ux == a.x || ux == -a.x;
    assert(uy * uy == a.y * a.y) by (nonlinear_arith)
        requires
            uy == a.y || uy == -a.y;
    assert(uz * uz == a.z * a.z) by (nonlinear_arith)
        requires
            uz == a.z || uz == -a.z;
    assert(ux * ux <= sigma && uy * uy <= sigma && uz * uz <= sigma) by (nonlinear_arith)
        requires
            sigma == ux * ux + uy * uy + uz * uz;
    assert(ux <= l + 199) by (nonlinear_arith)
        requires
            0 <= ux,
            0 <= l,
            ux * ux < (l + 200) * (l + 200);
    assert(uy <= l + 199) by (nonlinear_arith)
        requires
            0 <= uy,
            0 <= l,
            uy * uy < (l + 200) * (l + 200);
    assert(uz <= l + 199) by (nonlinear_arith)
        requires
            0 <= uz,
            0 <= l,
            uz * uz < (l + 200) * (l + 200);
    // The normalized components, exactly.
    let n = spec_vnorm(a);
    assert(n == V3 {
        x: spec_fdiv_scale(a.x, l),
        y: spec_fdiv_scale(a.y, l),
        z: spec_fdiv_scale(a.z, l),
    });
    lemma_div_scale_exact(a.x, l);
    lemma_div_scale_exact(a.y, l);
    lemma_div_scale_exact(a.z, l);
    let dx = spec_abs(n.x);
    let dy = spec_abs(n.y);
    let dz = spec_abs(n.z);
    lemma_sq_bracket(ux, l, dx);
    lemma_sq_bracket(uy, l, dy);
    lemma_sq_bracket(uz, l, dz);
    let dsum = dx * dx + dy * dy + dz * dz;
    // Upper bound on the square sum of the normalized components.
    assert((l * l) * dsum <= sigma * 1_000_000_000_000) by (nonlinear_arith)
        requires
            (l * l) * (dx * dx) <= (ux * ux) * 1_000_000_000_000,
            (l * l) * (dy * dy) <= (uy * uy) * 1_000_000_000_000,
            (l * l) * (dz * dz) <= (uz * uz) * 1_000_000_000_000,
            dsum == dx * dx + dy * dy + dz * dz,
            sigma == ux * ux + uy * uy + uz * uz;
    assert(sigma * 1_000_000_000_000 < ((l + 1) * (l + 1) + 3_000_000) * 1_000_000_000_000)
        by (nonlinear_arith)
        requires
            sigma < (l + 1) * (l + 1) + 3_000_000;
    assert(((l + 1) * (l + 1) + 3_000_000) * 1_000_000_000_000 <= (l * l) * (
    1_000_000_000_000 + 40_000_000_000)) by (nonlinear_arith)
        requires
            10_000 <= l <= 1_000_000_000_000;
    assert(dsum < 1_000_000_000_000 + 40_000_000_000) by (nonlinear_arith)
        requires
            (l * l) * dsum < (l * l) * (1_000_000_000_000 + 40_000_000_000),
            l >= 1;
    // Lower bound on the same square sum.
    assert(sigma * 1_000_000_000_000 < (l * l) * ((dx + 1) * (dx + 1) + (dy + 1) * (dy + 1) + (
    dz + 1) * (dz + 1))) by (nonlinear_arith)
        requires
            (ux * ux) * 1_000_000_000_000 < (l * l) * ((dx + 1) * (dx + 1)),
            (uy * uy) * 1_000_000_000_000 < (l * l) * ((dy + 1) * (dy + 1)),
            (uz * uz) * 1_000_000_000_000 < (l * l) * ((dz + 1) * (dz + 1)),
            sigma == ux * ux + uy * uy + uz * uz;
    assert((l * l) * 1_000_000_000_000 <= sigma * 1_000_000_000_000) by (nonlinear_arith)
        requires
            l * l <= sigma;
    assert(1_000_000_000_000 < (dx + 1) * (dx + 1) + (dy + 1) * (dy + 1) + (dz + 1) * (dz + 1))
        by (nonlinear_arith)
        requires
            (l * l) * 1_000_000_000_000 < (l * l) * ((dx + 1) * (dx + 1) + (dy + 1) * (dy + 1) + (
            dz + 1) * (dz + 1)),
            l >= 1;
    // Each normalized component is near or under one unit.
    assert(dx <= 1_020_000) by (nonlinear_arith)
        requires
            0 <= dx,
            l * dx <= ux * 1_000_000,
            ux <= l + 199,
            l >= 10_000;
    assert(dy <= 1_020_000) by (nonlinear_arith)
        requires
            0 <= dy,
            l * dy <= uy * 1_000_000,
            uy <= l + 199,
            l >= 10_000;
    assert(dz <= 1_020_000) by (nonlinear_arith)
        requires
            0 <= dz,
            l * dz <= uz * 1_000_000,
            uz <= l + 199,
            l >= 10_000;
    assert(dsum > 1_000_000_000_000 - 7_000_000) by (nonlinear_arith)
        requires
            1_000_000_000_000 < (dx + 1) * (dx + 1) + (dy + 1) * (dy + 1) + (dz + 1) * (dz + 1),
            dsum == dx * dx + dy * dy + dz * dz,
            0 <= dx <= 1_020_000,
            0 <= dy <= 1_020_000,
            0 <= dz <= 1_020_000;
    // The dot product of the normalized vector truncates the square
    // sum by at most three scale units and never clamps.
    assert(n.x * n.x == dx * dx && n.y * n.y == dy * dy && n.z * n.z == dz * dz)
        by (nonlinear_arith)
        requires
            dx == spec_abs(n.x),
            dy == spec_abs(n.y),
            dz == spec_abs(n.z);
    lemma_fmul_self_exact(n.x);
    lemma_fmul_self_exact(n.y);
    lemma_fmul_self_exact(n.z);
    let q2 = spec_vdot(n, n);
    assert(q2 == (dx * dx) / 1_000_000 + (dy * dy) / 1_000_000 + (dz * dz) / 1_000_000);
    assert(1_000_000 * q2 <= dsum && dsum < 1_000_000 * q2 + 3_000_000);
    assert(1_000_000 * q2 <= 1_000_000_000_000 + 40_000_000_000);
    assert(1_000_000 * q2 > 1_000_000_000_000 - 10_000_000);
    // And its root lands within a thousandth of one unit.
    let len2 = spec_vlen(n);
    lemma_vdot_self_nonneg(n);
    lemma_isqrt_bounds((1_000_000 * q2) as nat);
    assert(len2 * len2 <= 1_000_000 * q2 && 1_000_000 * q2 < (len2 + 1) * (len2 + 1));
    lemma_vlen_range(n);
    assert(len2 <= 1_000_000 + 20_000) by (nonlinear_arith)
        requires
            len2 * len2 <= 1_000_000_000_000 + 40_000_000_000,
            0 <= len2;
    assert(len2 >= 1_000_000 - 1_000) by (nonlinear_arith)
        requires
            (len2 + 1) * (len2 + 1) > 1_000_000_000_000 - 10_000_000,
            0 <= len2;
    // For a vector at least a tenth long, the rounding slack shrinks
    // and the same chain lands within a thousandth of one unit.
    if l >= 100_000 {
        assert((l + 55) * (l + 55) >= (l + 1) * (l + 1) + 3_000_000) by (nonlinear_arith)
            requires
                l >= 100_000;
        assert(ux <= l + 54) by (nonlinear_arith)
            requires
                0 <= ux,
                0 <= l,
                ux * ux < (l + 55) * (l + 55);
        assert(uy <= l + 54) by (nonlinear_arith)
            requires
                0 <= uy,
                0 <= l,
                uy * uy < (l + 55) * (l + 55);
        assert(uz <= l + 54) by (nonlinear_arith)
            requires
                0 <= uz,
                0 <= l,
                uz * uz < (l + 55) * (l + 55);
        assert(((l + 1) * (l + 1) + 3_000_000) * 1_000_000_000_000 <= (l * l) * (
        1_000_000_000_000 + 400_000_000)) by (nonlinear_arith)
            requires
                100_000 <= l <= 1_000_000_000_000;
        assert(dsum < 1_000_000_000_000 + 400_000_000) by (nonlinear_arith)
            requires
                (l * l) * dsum < (l * l) * (1_000_000_000_000 + 400_000_000),
                l >= 1;
        assert(1_000_000 * q2 <= 1_000_000_000_000 + 400_000_000);
        assert(len2 <= 1_000_000 + 1_000) by (nonlinear_arith)
            requires
                len2 * len2 <= 1_000_000_000_000 + 400_000_000,
                0 <= len2;
    }
}

impl Vec3 {
    pub fn new(x: i64, y: i64, z: i64) -> (r: Vec3)
        ensures
            r@ == v3(x as int, y as int, z as int),
    {
        Vec3 { x, y, z }
    }

    pub fn zero() -> (r: Vec3)
        ensures
            r@ == v3(0, 0, 0),
    {
        Vec3 { x: 0, y: 0, z: 0 }
    }

    /// Copy with the x component replaced.
    pub fn sx(self, x: i64) -> (r: Vec3)
        ensures
            r@ == (V3 { x: x as int, ..self@ }),
    {
        Vec3 { x, ..self }
    }

    /// Copy with the y component replaced.
    pub fn sy(self, y: i64) -> (r: Vec3)
        ensures
            r@ == (V3 { y: y as int, ..self@ }),
    {
        Vec3 { y, ..self }
    }

    /// Copy with the z component replaced.
    pub fn sz(self, z: i64) -> (r: Vec3)
        ensures
            r@ == (V3 { z: z as int, ..self@ }),
    {
        Vec3 { z, ..self }
    }

    pub fn add(self, other: Vec3) -> (r: Vec3)
        ensures
            r@ == spec_vadd(self@, other@),
    {
        Vec3 { x: fadd(self.x, other.x), y: fadd(self.y, other.y), z: fadd(self.z, other.z) }
    }

    pub fn sub(self, other: Vec3) -> (r: Vec3)
        ensures
            r@ == spec_vsub(self@, other@),
    {
        Vec3 { x: fsub(self.x, other.x), y: fsub(self.y, other.y), z: fsub(self.z, other.z) }
    }

    /// Subtract one scalar from every component.
    pub fn sub_scalar(self, s: i64) -> (r: Vec3)
        ensures
            r@ == spec_vsub_scalar(self@, s as int),
    {
        Vec3 { x: fsub(self.x, s), y: fsub(self.y, s), z: fsub(self.z, s) }
    }

    /// Scale every component by the fixed-point scalar `s`.
    pub fn mul(self, s: i64) -> (r: Vec3)
        ensures
            r@ == spec_vmul(self@, s as int),
    {
        Vec3 { x: fmul(self.x, s), y: fmul(self.y, s), z: fmul(self.z, s) }
    }

    pub fn dot(self, other: Vec3) -> (r: i64)
        ensures
            r as int == spec_vdot(self@, other@),
    {
        let mx = fmul(self.x, other.x);
        let my = fmul(self.y, other.y);
        let mz = fmul(self.z, other.z);
        let s: i128 = mx as i128 + my as i128 + mz as i128;
        if s > FIX_MAX as i128 {
            FIX_MAX
        } else if s < -(FIX_MAX as i128) {
            -FIX_MAX
        } else {
            s as i64
        }
    }

    pub fn length(self) -> (r: i64)
        ensures
            r as int == spec_vlen(self@),
            0 <= r <= LEN_MAX,
    {
        proof {
            lemma_vdot_self_nonneg(self@);
            lemma_vlen_range(self@);
        }
        let q = self.dot(self);
        proof {
            assert((q as int) * (SCALE as int) <= (FIX_MAX as int) * (SCALE as int))
                by (nonlinear_arith)
                requires
                    0 <= q as int <= FIX_MAX as int;
        }
        let n: u128 = (q as u128) * (SCALE as u128);
        let r = isqrt(n);
        r as i64
    }

    pub fn normalize(self) -> (r: Vec3)
        ensures
            r@ == spec_vnorm(self@),
    {
        let l = self.length();
        if l <= 0 {
            Vec3::zero()
        } else {
            Vec3 {
                x: fdiv_scale(self.x, l),
                y: fdiv_scale(self.y, l),
                z: fdiv_scale(self.z, l),
            }
        }
    }
}

} // verus!
