//! The scaled planar mapper behind the top-down overview.
//!
//! A fixed overview rectangle of `size` pixels represents `scale` world
//! units. A world X/Z pair is scaled by `size / scale` per axis, the X axis
//! is mirrored to match the flipped texture orientation of the terrain, and
//! both axes are clamped independently into the rectangle's half extents,
//! which equal `size / 2` exactly.

use crate::rat::{
    in_i128, lemma_mul_in_bounds, q_div, q_eq, q_int, q_le, q_mul, q_neg, q_wf, qv, Rat,
};
use crate::vec3::Vec2;
use vstd::prelude::*;

verus! {

/// Magnitude bound on the overview configuration (sizes and world extents).
pub const OVERVIEW_CONFIG_BOUND: i128 = 100000;

/// Magnitude bound on world coordinates handed to the mapper.
pub const OVERVIEW_INPUT_BOUND: i128 = 1000000000;

/// `v` clamped into `[lo, hi]` on rational views: `lo` when `v <= lo`,
/// `hi` when `v >= hi`, otherwise `v` itself.
pub open spec fn q_clamp(v: (int, int), lo: (int, int), hi: (int, int)) -> (int, int) {
    if q_le(v, lo) {
        lo
    } else if q_le(hi, v) {
        hi
    } else {
        v
    }
}

/// `q_le` respects value equality on its right-hand side.
pub proof fn lemma_q_le_eq_right(a: (int, int), b: (int, int), c: (int, int))
    by (nonlinear_arith)
    requires
        q_wf(a),
        q_wf(b),
        q_wf(c),
        q_le(a, b),
        q_eq(b, c),
    ensures
        q_le(a, c),
{
}

/// `q_le` respects value equality on its left-hand side.
pub proof fn lemma_q_le_eq_left(a: (int, int), b: (int, int), c: (int, int))
    by (nonlinear_arith)
    requires
        q_wf(a),
        q_wf(b),
        q_wf(c),
        q_le(a, b),
        q_eq(a, c),
    ensures
        q_le(c, b),
{
}

/// Clamps `v` into `[lo, hi]`; `lo` wins when `v` is at or below it, `hi`
/// when `v` is at or above it.
pub fn constrain(v: &Rat, lo: &Rat, hi: &Rat) -> (r: Rat)
    requires
        v.wf(),
        lo.wf(),
        hi.wf(),
        q_le(qv(*lo), qv(*hi)),
        in_i128(v.num * lo.den),
        in_i128(lo.num * v.den),
        in_i128(hi.num * v.den),
        in_i128(v.num * hi.den),
    ensures
        r.wf(),
        qv(r) == q_clamp(qv(*v), qv(*lo), qv(*hi)),
        q_le(qv(*lo), qv(r)),
        q_le(qv(r), qv(*hi)),
{
    if v.le(lo) {
        *lo
    } else if hi.le(v) {
        *hi
    } else {
        *v
    }
}

/// The overview rectangle: `size` is its on-screen extent per axis, `scale`
/// the world extent it represents per axis.
pub struct OrthoView {
    /// On-screen extent of the overview rectangle per axis.
    pub size: Vec2,
    /// World extent represented by the rectangle per axis.
    pub scale: Vec2,
}

/// The mirrored, scaled overview X for world coordinate `x`:
/// `-(x * (size.x / scale.x))`, before clamping.
pub open spec fn mapped_x(o: OrthoView, x: Rat) -> (int, int) {
    q_neg(q_mul(qv(x), q_div(qv(o.size.x), qv(o.scale.x))))
}

/// The scaled overview Y for world coordinate `y`:
/// `y * (size.y / scale.y)`, before clamping.
pub open spec fn mapped_y(o: OrthoView, y: Rat) -> (int, int) {
    q_mul(qv(y), q_div(qv(o.size.y), qv(o.scale.y)))
}

/// The X clamp boundary, written as the scaling ratio times half the world
/// extent; its value equals `size.x / 2`.
pub open spec fn half_extent_x(o: OrthoView) -> (int, int) {
    q_mul(q_div(qv(o.size.x), qv(o.scale.x)), q_div(qv(o.scale.x), q_int(2)))
}

/// The Y clamp boundary; its value equals `size.y / 2`.
pub open spec fn half_extent_y(o: OrthoView) -> (int, int) {
    q_mul(q_div(qv(o.size.y), qv(o.scale.y)), q_div(qv(o.scale.y), q_int(2)))
}

impl OrthoView {
    /// Positive, bounded configuration; division by `scale` stays exact and
    /// overflow-free.
    pub open spec fn wf(self) -> bool {
        &&& self.size.x.bounded(OVERVIEW_CONFIG_BOUND as int)
        &&& self.size.y.bounded(OVERVIEW_CONFIG_BOUND as int)
        &&& self.scale.x.bounded(OVERVIEW_CONFIG_BOUND as int)
        &&& self.scale.y.bounded(OVERVIEW_CONFIG_BOUND as int)
        &&& self.size.x.num > 0
        &&& self.size.y.num > 0
        &&& self.scale.x.num > 0
        &&& self.scale.y.num > 0
    }

    /// Builds an overview of on-screen extent `size` representing `scale`
    /// world units.
    pub fn new(size: Vec2, scale: Vec2) -> (r: OrthoView)
        requires
            size.x.bounded(OVERVIEW_CONFIG_BOUND as int),
            size.y.bounded(OVERVIEW_CONFIG_BOUND as int),
            scale.x.bounded(OVERVIEW_CONFIG_BOUND as int),
            scale.y.bounded(OVERVIEW_CONFIG_BOUND as int),
            size.x.num > 0,
            size.y.num > 0,
            scale.x.num > 0,
            scale.y.num > 0,
        ensures
            r.wf(),
            r.size == size,
            r.scale == scale,
    {
        OrthoView { size, scale }
    }

    /// Maps the world pair `(x, y)` into the overview rectangle: scale each
    /// axis by `size / scale`, mirror X, and clamp each axis into its half
    /// extent, which equals `size / 2`.
    pub fn constrained_scale_xy(&self, x: &Rat, y: &Rat) -> (r: (Rat, Rat))
        requires
            self.wf(),
            x.bounded(OVERVIEW_INPUT_BOUND as int),
            y.bounded(OVERVIEW_INPUT_BOUND as int),
        ensures
            r.0.wf(),
            r.1.wf(),
            qv(r.0) == q_clamp(
                mapped_x(*self, *x),
                q_neg(half_extent_x(*self)),
                half_extent_x(*self),
            ),
            qv(r.1) == q_clamp(
                mapped_y(*self, *y),
                q_neg(half_extent_y(*self)),
                half_extent_y(*self),
            ),
            q_le(q_neg(q_div(qv(self.size.x), q_int(2))), qv(r.0)),
            q_le(qv(r.0), q_div(qv(self.size.x), q_int(2))),
            q_le(q_neg(q_div(qv(self.size.y), q_int(2))), qv(r.1)),
            q_le(qv(r.1), q_div(qv(self.size.y), q_int(2))),
    {
        let two = Rat::from_int(2);
        let cx = self.constrained_axis(&self.size.x, &self.scale.x, x, &two, true);
        let cy = self.constrained_axis(&self.size.y, &self.scale.y, y, &two, false);
        (cx, cy)
    }

    /// One axis of [`Self::constrained_scale_xy`]: scales `w` by
    /// `size_a / scale_a`, mirrors it when `mirror` holds, and clamps it into
    /// the axis half extent.
    fn constrained_axis(&self, size_a: &Rat, scale_a: &Rat, w: &Rat, two: &Rat, mirror: bool)
        -> (r: Rat)
        requires
            size_a.bounded(OVERVIEW_CONFIG_BOUND as int),
            scale_a.bounded(OVERVIEW_CONFIG_BOUND as int),
            size_a.num > 0,
            scale_a.num > 0,
            w.bounded(OVERVIEW_INPUT_BOUND as int),
            qv(*two) == q_int(2),
        ensures
            r.wf(),
            ({
                let m = if mirror {
                    q_neg(q_mul(qv(*w), q_div(qv(*size_a), qv(*scale_a))))
                } else {
                    q_mul(qv(*w), q_div(qv(*size_a), qv(*scale_a)))
                };
                let h = q_mul(q_div(qv(*size_a), qv(*scale_a)), q_div(qv(*scale_a), q_int(2)));
                qv(r) == q_clamp(m, q_neg(h), h)
            }),
            q_le(q_neg(q_div(qv(*size_a), q_int(2))), qv(r)),
            q_le(qv(r), q_div(qv(*size_a), q_int(2))),
    {
        let ghost bc: int = OVERVIEW_CONFIG_BOUND as int;
        let ghost bi: int = OVERVIEW_INPUT_BOUND as int;
        proof {
            lemma_mul_in_bounds(size_a.num as int, scale_a.den as int, bc, bc);
            lemma_mul_in_bounds(size_a.den as int, scale_a.num as int, bc, bc);
        }
        let ratio = size_a.over(scale_a);
        proof {
            lemma_mul_in_bounds(w.num as int, ratio.num as int, bi, bc * bc);
            lemma_mul_in_bounds(w.den as int, ratio.den as int, bi, bc * bc);
        }
        let scaled = w.times(&ratio);
        let m = if mirror {
            scaled.neg()
        } else {
            scaled
        };
        proof {
            lemma_mul_in_bounds(scale_a.num as int, 1, bc, 1);
            lemma_mul_in_bounds(scale_a.den as int, 2, bc, 2);
        }
        let half_world = scale_a.over(two);
        proof {
            lemma_mul_in_bounds(ratio.num as int, half_world.num as int, bc * bc, bc);
            lemma_mul_in_bounds(ratio.den as int, half_world.den as int, bc * bc, 2 * bc);
        }
        let h = ratio.times(&half_world);
        proof {
            assert(h.num > 0) by (nonlinear_arith)
                requires
                    h.num == (size_a.num * scale_a.den) * (scale_a.num * 1),
                    size_a.num > 0,
                    scale_a.den > 0,
                    scale_a.num > 0,
            ;
        }
        let neg_h = h.neg();
        proof {
            assert(q_le(qv(neg_h), qv(h))) by (nonlinear_arith)
                requires
                    qv(neg_h) == q_neg(qv(h)),
                    h.num > 0,
                    h.den > 0,
            ;
            lemma_mul_in_bounds(m.num as int, neg_h.den as int, bi * bc * bc, 2 * bc * bc * bc);
            lemma_mul_in_bounds(neg_h.num as int, m.den as int, bc * bc * bc, bi * bc * bc);
            lemma_mul_in_bounds(h.num as int, m.den as int, bc * bc * bc, bi * bc * bc);
            lemma_mul_in_bounds(m.num as int, h.den as int, bi * bc * bc, 2 * bc * bc * bc);
        }
        let r = constrain(&m, &neg_h, &h);
        proof {
            let s2 = q_div(qv(*size_a), q_int(2));
            assert(q_eq(qv(h), s2)) by (nonlinear_arith)
                requires
                    qv(h) == (
                        ((size_a.num * scale_a.den) * (scale_a.num * 1)) as int,
                        ((size_a.den * scale_a.num) * (scale_a.den * 2)) as int,
                    ),
                    s2 == ((size_a.num * 1) as int, (size_a.den * 2) as int),
                    size_a.num > 0,
                    size_a.den > 0,
                    scale_a.num > 0,
                    scale_a.den > 0,
            ;
            assert(q_wf(s2)) by (nonlinear_arith)
                requires
                    s2 == ((size_a.num * 1) as int, (size_a.den * 2) as int),
                    size_a.den > 0,
            ;
            lemma_q_le_eq_right(qv(r), qv(h), s2);
            assert(q_eq(qv(neg_h), q_neg(s2))) by (nonlinear_arith)
                requires
                    q_eq(qv(h), s2),
                    qv(neg_h) == q_neg(qv(h)),
            ;
            assert(q_wf(q_neg(s2)));
            lemma_q_le_eq_left(qv(neg_h), qv(r), q_neg(s2));
        }
        r
    }
}

} // verus!
