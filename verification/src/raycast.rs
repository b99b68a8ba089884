//! Screen-to-ground raycasting.
//!
//! A camera unprojects a 2D screen coordinate into a ray (origin plus
//! direction); [`ground_plane_intersection`] intersects that ray with the
//! horizontal ground plane `y == 0` (plane normal `(0, 1, 0)`). A ray whose
//! direction has a zero Y component is parallel to the plane and yields no
//! intersection — a normal outcome, not an error. Otherwise the intersection
//! is `origin - t * direction` with `t = origin.y / direction.y`, computed
//! exactly.
//!
//! [`OriginModel`] is the marker the raycast drives: a successful cast moves
//! its X/Z, a parallel ray leaves it untouched, and its Y ("static height")
//! is set independently.

use crate::rat::{lemma_mul_in_bounds, q_div, q_mul, q_sub, qv, Rat};
use crate::vec3::Vec3;
use vstd::prelude::*;

verus! {

/// Magnitude bound on ray coordinates (numerators and denominators) under
/// which the exact intersection arithmetic cannot overflow an `i128`.
pub const RAY_COORD_BOUND: i128 = 0x4000_0000;

/// The X component of the exact intersection of the ray `(rp, rv)` with the
/// ground plane, as a rational view (`rp.x - (rp.y / rv.y) * rv.x`).
pub open spec fn hit_x(rv: Vec3, rp: Vec3) -> (int, int) {
    q_sub(qv(rp.x), q_mul(q_div(qv(rp.y), qv(rv.y)), qv(rv.x)))
}

/// The Y component of the exact intersection; its value is always zero.
pub open spec fn hit_y(rv: Vec3, rp: Vec3) -> (int, int) {
    q_sub(qv(rp.y), q_mul(q_div(qv(rp.y), qv(rv.y)), qv(rv.y)))
}

/// The Z component of the exact intersection of the ray `(rp, rv)` with the
/// ground plane (`rp.z - (rp.y / rv.y) * rv.z`).
pub open spec fn hit_z(rv: Vec3, rp: Vec3) -> (int, int) {
    q_sub(qv(rp.z), q_mul(q_div(qv(rp.y), qv(rv.y)), qv(rv.z)))
}

/// Intersects the ray with direction `rv` and origin `rp` with the ground
/// plane `y == 0`. Returns `None` exactly when the ray is parallel to the
/// plane; otherwise the exact intersection point, whose Y is zero.
pub fn ground_plane_intersection(rv: &Vec3, rp: &Vec3) -> (r: Option<Vec3>)
    requires
        rv.bounded(RAY_COORD_BOUND as int),
        rp.bounded(RAY_COORD_BOUND as int),
    ensures
        r is Some <==> rv.y.num != 0,
        r matches Some(p) ==> {
            &&& p.wf()
            &&& qv(p.x) == hit_x(*rv, *rp)
            &&& qv(p.y) == hit_y(*rv, *rp)
            &&& qv(p.z) == hit_z(*rv, *rp)
            &&& p.y.num == 0
        },
{
    if rv.y.num == 0 {
        return None;
    }
    let ghost b0: int = RAY_COORD_BOUND as int;
    proof {
        lemma_mul_in_bounds(rp.y.num as int, rv.y.den as int, b0, b0);
        lemma_mul_in_bounds(rp.y.den as int, rv.y.num as int, b0, b0);
    }
    let t = rp.y.over(&rv.y);
    proof {
        assert(-(b0 * b0) <= t.num <= b0 * b0 && 0 < t.den <= b0 * b0);
        lemma_mul_in_bounds(t.num as int, rv.x.num as int, b0 * b0, b0);
        lemma_mul_in_bounds(t.den as int, rv.x.den as int, b0 * b0, b0);
        lemma_mul_in_bounds(t.num as int, rv.y.num as int, b0 * b0, b0);
        lemma_mul_in_bounds(t.den as int, rv.y.den as int, b0 * b0, b0);
        lemma_mul_in_bounds(t.num as int, rv.z.num as int, b0 * b0, b0);
        lemma_mul_in_bounds(t.den as int, rv.z.den as int, b0 * b0, b0);
    }
    let mx = t.times(&rv.x);
    let my = t.times(&rv.y);
    let mz = t.times(&rv.z);
    let ghost b3: int = b0 * b0 * b0;
    proof {
        lemma_mul_in_bounds(rp.x.num as int, mx.den as int, b0, b3);
        lemma_mul_in_bounds(mx.num as int, rp.x.den as int, b3, b0);
        lemma_mul_in_bounds(rp.x.den as int, mx.den as int, b0, b3);
        lemma_mul_in_bounds(rp.y.num as int, my.den as int, b0, b3);
        lemma_mul_in_bounds(my.num as int, rp.y.den as int, b3, b0);
        lemma_mul_in_bounds(rp.y.den as int, my.den as int, b0, b3);
        lemma_mul_in_bounds(rp.z.num as int, mz.den as int, b0, b3);
        lemma_mul_in_bounds(mz.num as int, rp.z.den as int, b3, b0);
        lemma_mul_in_bounds(rp.z.den as int, mz.den as int, b0, b3);
    }
    let px = rp.x.minus(&mx);
    let py = rp.y.minus(&my);
    let pz = rp.z.minus(&mz);
    proof {
        let a0 = rp.y.num as int;
        let a1 = rp.y.den as int;
        let c0 = rv.y.num as int;
        let c1 = rv.y.den as int;
        let tn = t.num as int;
        let td = t.den as int;
        assert(my.num == tn * c0 && my.den == td * c1);
        assert(py.num == a0 * (td * c1) - (tn * c0) * a1);
        assert(py.num as int == 0) by (nonlinear_arith)
            requires
                py.num == a0 * (td * c1) - (tn * c0) * a1,
                c0 >= 0 ==> tn == a0 * c1 && td == a1 * c0,
                c0 < 0 ==> tn == -(a0 * c1) && td == -(a1 * c0),
        ;
    }
    Some(Vec3 { x: px, y: py, z: pz })
}

/// The pickable origin marker: a point whose X/Z follow the latest successful
/// ground-plane raycast and whose Y is a separately controlled static height.
pub struct OriginModel {
    /// The marker's world position.
    pub loc: Vec3,
}

impl OriginModel {
    /// All stored coordinates well formed.
    pub open spec fn wf(self) -> bool {
        self.loc.wf()
    }

    /// A fresh marker resting on the ground plane: position `(0, 1/2, 0)`,
    /// half a unit up so a unit-sized marker model sits on the surface.
    pub fn new() -> (r: OriginModel)
        ensures
            r.wf(),
            qv(r.loc.x) == (0int, 1int),
            qv(r.loc.y) == (1int, 2int),
            qv(r.loc.z) == (0int, 1int),
    {
        OriginModel {
            loc: Vec3 { x: Rat::from_int(0), y: Rat::new(1, 2), z: Rat::from_int(0) },
        }
    }

    /// The marker's current world position.
    pub fn position(&self) -> (r: &Vec3)
        ensures
            r == self.loc,
    {
        &self.loc
    }

    /// Sets the marker's height; X and Z are untouched.
    pub fn set_static_height(&mut self, h: Rat)
        requires
            h.wf(),
        ensures
            final(self).loc.y == h,
            final(self).loc.x == old(self).loc.x,
            final(self).loc.z == old(self).loc.z,
    {
        self.loc.y = h;
    }

    /// Recomputes the marker's X/Z from the unprojected cursor ray
    /// `(rp, rv)`. A ray parallel to the ground plane leaves the marker
    /// exactly where it was; a hit moves X/Z to the intersection and keeps
    /// the static height.
    pub fn update_from_ray(&mut self, rv: &Vec3, rp: &Vec3)
        requires
            old(self).wf(),
            rv.bounded(RAY_COORD_BOUND as int),
            rp.bounded(RAY_COORD_BOUND as int),
        ensures
            final(self).wf(),
            rv.y.num == 0 ==> *final(self) == *old(self),
            rv.y.num != 0 ==> {
                &&& qv(final(self).loc.x) == hit_x(*rv, *rp)
                &&& qv(final(self).loc.z) == hit_z(*rv, *rp)
                &&& final(self).loc.y == old(self).loc.y
            },
    {
        if let Some(p) = ground_plane_intersection(rv, rp) {
            self.loc.x = p.x;
            self.loc.z = p.z;
        }
    }
}

} // verus!
