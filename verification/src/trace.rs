//! Sphere marching: advance along the ray by the field value at each
//! step, for a fixed number of iterations, to a hit distance or a miss.

use vstd::prelude::*;

use crate::fixed::{fadd, spec_fadd};
use crate::scene::{scene, spec_scene};
use crate::vec3::{spec_vadd, spec_vmul, V3, Vec3};

verus! {

/// Outcome of tracing one ray: the accumulated distance to the surface,
/// or a miss after the full iteration budget.
#[derive(Clone, Copy, PartialEq, Eq, Structural, Debug)]
pub enum HitResult {
    Hit(i64),
    Miss,
}

impl HitResult {
    pub open spec fn as_opt(self) -> Option<int> {
        match self {
            HitResult::Hit(t) => Some(t as int),
            HitResult::Miss => None,
        }
    }
}

/// The march from point `p` with `fuel` field evaluations left: stop
/// with the distance so far as soon as the field drops under `eps`,
/// else step forward by the field value.  The iteration count is part
/// of the observable contract: it decides which near-misses resolve as
/// hits.
pub open spec fn spec_trace(p: V3, rd: V3, t: int, eps: int, fuel: nat) -> Option<int>
    decreases fuel,
{
    if fuel == 0 {
        None
    } else {
        let d = spec_scene(p);
        if d < eps {
            Some(t)
        } else {
            spec_trace(
                spec_vadd(p, spec_vmul(rd, d)),
                rd,
                spec_fadd(t, d),
                eps,
                (fuel - 1) as nat,
            )
        }
    }
}

/// March a ray from origin `ro` in direction `rd` for at most `iters`
/// steps, reporting a hit when the field drops under `eps`.
pub fn trace(ro: Vec3, rd: Vec3, eps: i64, iters: usize) -> (h: HitResult)
    ensures
        h.as_opt() == spec_trace(ro@, rd@, 0, eps as int, iters as nat),
{
    let mut p = ro;
    let mut t: i64 = 0;
    let mut i: usize = 0;
    while i < iters
        invariant
            i <= iters,
            spec_trace(ro@, rd@, 0, eps as int, iters as nat) == spec_trace(
                p@,
                rd@,
                t as int,
                eps as int,
                (iters - i) as nat,
            ),
        decreases iters - i,
    {
        let d = scene(p);
        if d < eps {
            return HitResult::Hit(t);
        }
        t = fadd(t, d);
        p = p.add(rd.mul(d));
        i = i + 1;
    }
    HitResult::Miss
}

} // verus!
