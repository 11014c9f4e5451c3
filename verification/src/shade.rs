//! Lambertian-plus-ambient shading with an explicit degenerate-angle
//! clamp.

use vstd::prelude::*;

use crate::fixed::{spec_fmul, spec_tdiv, FIX_MAX, SCALE};
use crate::vec3::{spec_vadd, spec_vdot, spec_vmul, v3, V3, Vec3};

verus! {

/// Flat ambient share, 0.05 in fixed-point units.
pub const AMBIENT: i64 = 50_000;

/// Lambertian term plus flat ambient: `albedo * cos + albedo * 0.05`,
/// with the whole color forced to black once the cosine falls under
/// `-0.05`.  The threshold sits below zero on purpose: it masks the
/// divergence that hardware backends show for near-grazing angles, and
/// is part of the observable contract.
pub open spec fn spec_shade(col: V3, l: V3, n: V3) -> V3 {
    let cos_theta = spec_vdot(l, n);
    if cos_theta < -(AMBIENT as int) {
        v3(0, 0, 0)
    } else {
        spec_vadd(spec_vmul(col, cos_theta), spec_vmul(col, AMBIENT as int))
    }
}

pub fn shade(col: Vec3, l: Vec3, n: Vec3) -> (r: Vec3)
    ensures
        r@ == spec_shade(col@, l@, n@),
{
    let cos_theta = l.dot(n);
    if cos_theta < -AMBIENT {
        return Vec3::zero();
    }
    col.mul(cos_theta).add(col.mul(AMBIENT))
}

/// Scaling by the fixed-point unit is the identity on the fixed-point
/// domain.
proof fn lemma_fmul_unit(c: int)
    requires
        -(FIX_MAX as int) <= c <= FIX_MAX as int,
    ensures
        spec_fmul(c, SCALE as int) == c,
{
    if c >= 0 {
        assert(spec_tdiv(c * (SCALE as int), SCALE as int) == c) by (nonlinear_arith)
            requires
                c >= 0;
    } else {
        assert((-(c * (SCALE as int))) == (-c) * (SCALE as int)) by (nonlinear_arith);
        assert(spec_tdiv((-c) * (SCALE as int), SCALE as int) == -c) by (nonlinear_arith)
            requires
                c < 0;
    }
}

/// Full light: a cosine of exactly 1 returns the albedo grown by the
/// ambient share - `color * 1.05`.
pub proof fn lemma_shade_full_light(col: V3, l: V3, n: V3)
    requires
        spec_vdot(l, n) == SCALE,
        -(FIX_MAX as int) <= col.x <= FIX_MAX as int,
        -(FIX_MAX as int) <= col.y <= FIX_MAX as int,
        -(FIX_MAX as int) <= col.z <= FIX_MAX as int,
    ensures
        spec_shade(col, l, n) == spec_vadd(col, spec_vmul(col, AMBIENT as int)),
{
    lemma_fmul_unit(col.x);
    lemma_fmul_unit(col.y);
    lemma_fmul_unit(col.z);
}

/// Backface clamp: any cosine under the `-0.05` threshold - the
/// threshold sits there, not at 0 - blacks the pixel out, whatever the
/// albedo.
pub proof fn lemma_shade_clamped(col: V3, l: V3, n: V3)
    requires
        spec_vdot(l, n) < -(AMBIENT as int),
    ensures
        spec_shade(col, l, n) == v3(0, 0, 0),
{
}

} // verus!
