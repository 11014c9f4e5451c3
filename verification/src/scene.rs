//! The fixed scene: a signed-distance field over two unit spheres, the
//! per-point albedo that mirrors the field's nearest-surface choice,
//! and the central-difference normal estimator.

use vstd::prelude::*;

use crate::fixed::{fadd, fsub, spec_fadd, spec_fsub, SCALE};
use crate::vec3::{lemma_vlen_range, spec_vlen, spec_vnorm, spec_vsub, v3, V3, Vec3};

verus! {

pub open spec fn spec_min(a: int, b: int) -> int {
    if a < b {
        a
    } else {
        b
    }
}

/// Center of the second sphere, `(-2, 0, 1)`.
pub open spec fn spec_sphere2_center() -> V3 {
    v3(-2 * SCALE, 0, SCALE as int)
}

pub fn sphere2_center() -> (r: Vec3)
    ensures
        r@ == spec_sphere2_center(),
{
    Vec3::new(-2 * SCALE, 0, SCALE)
}

/// Signed distance to the surface of the unit sphere at the origin.
pub open spec fn spec_dist1(p: V3) -> int {
    spec_fsub(spec_vlen(p), SCALE as int)
}

/// Signed distance to the surface of the unit sphere at `(-2, 0, 1)`.
pub open spec fn spec_dist2(p: V3) -> int {
    spec_fsub(spec_vlen(spec_vsub(p, spec_sphere2_center())), SCALE as int)
}

/// The signed-distance field: the union of the two spheres, kept in
/// this exact algebraic form because the normal estimator differences
/// it.
pub open spec fn spec_scene(p: V3) -> int {
    spec_min(spec_dist1(p), spec_dist2(p))
}

pub fn scene(p: Vec3) -> (r: i64)
    ensures
        r as int == spec_scene(p@),
{
    let a = fsub(p.length(), SCALE);
    let b = fsub(p.sub(sphere2_center()).length(), SCALE);
    if a < b {
        a
    } else {
        b
    }
}

/// Flat albedo of the nearer surface: the warm tint of sphere one under
/// a strict `<`, matching the field's implicit `min` selection.
pub open spec fn spec_albedo(p: V3) -> V3 {
    if spec_dist1(p) < spec_dist2(p) {
        v3(SCALE as int, (SCALE / 2) as int, (SCALE / 5) as int)
    } else {
        v3((3 * SCALE / 10) as int, (7 * SCALE / 10) as int, (2 * SCALE / 5) as int)
    }
}

pub fn color(p: Vec3) -> (r: Vec3)
    ensures
        r@ == spec_albedo(p@),
{
    let a = fsub(p.length(), SCALE);
    let b = fsub(p.sub(sphere2_center()).length(), SCALE);
    if a < b {
        Vec3::new(SCALE, SCALE / 2, SCALE / 5)
    } else {
        Vec3::new(3 * SCALE / 10, 7 * SCALE / 10, 2 * SCALE / 5)
    }
}

/// Central-difference gradient of the field with offset `e` on each
/// axis independently, normalized.
pub open spec fn spec_normal(p: V3, e: int) -> V3 {
    spec_vnorm(
        V3 {
            x: spec_fsub(
                spec_scene(V3 { x: spec_fadd(p.x, e), ..p }),
                spec_scene(V3 { x: spec_fsub(p.x, e), ..p }),
            ),
            y: spec_fsub(
                spec_scene(V3 { y: spec_fadd(p.y, e), ..p }),
                spec_scene(V3 { y: spec_fsub(p.y, e), ..p }),
            ),
            z: spec_fsub(
                spec_scene(V3 { z: spec_fadd(p.z, e), ..p }),
                spec_scene(V3 { z: spec_fsub(p.z, e), ..p }),
            ),
        },
    )
}

pub fn normal(p: Vec3, e: i64) -> (r: Vec3)
    ensures
        r@ == spec_normal(p@, e as int),
{
    let nx = fsub(scene(p.sx(fadd(p.x, e))), scene(p.sx(fsub(p.x, e))));
    let ny = fsub(scene(p.sy(fadd(p.y, e))), scene(p.sy(fsub(p.y, e))));
    let nz = fsub(scene(p.sz(fadd(p.z, e))), scene(p.sz(fsub(p.z, e))));
    Vec3::new(nx, ny, nz).normalize()
}

/// The albedo selection mirrors the field's implicit `min` exactly,
/// with the tie going to the second sphere under the strict `<`.
pub proof fn lemma_albedo_matches_scene(p: V3)
    ensures
        spec_dist1(p) < spec_dist2(p) ==> spec_scene(p) == spec_dist1(p) && spec_albedo(p) == v3(
            SCALE as int,
            (SCALE / 2) as int,
            (SCALE / 5) as int,
        ),
        spec_dist1(p) >= spec_dist2(p) ==> spec_scene(p) == spec_dist2(p) && spec_albedo(p) == v3(
            (3 * SCALE / 10) as int,
            (7 * SCALE / 10) as int,
            (2 * SCALE / 5) as int,
        ),
{
}

/// Any point farther than 3 from both sphere centers lies outside both
/// spheres, so the field is strictly positive there.
pub proof fn lemma_scene_positive_outside(p: V3)
    requires
        spec_vlen(p) > 3 * SCALE,
        spec_vlen(spec_vsub(p, spec_sphere2_center())) > 3 * SCALE,
    ensures
        spec_scene(p) > 0,
{
    lemma_vlen_range(p);
    lemma_vlen_range(spec_vsub(p, spec_sphere2_center()));
    assert(spec_dist1(p) == spec_vlen(p) - SCALE);
    assert(spec_dist2(p) == spec_vlen(spec_vsub(p, spec_sphere2_center())) - SCALE);
}

} // verus!
