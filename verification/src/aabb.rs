//! Axis-aligned bounding boxes: slab-test ray intersection and union merge.
//!
//! The slab test needs no special case for a ray parallel to a slab: the
//! saturating division of the scalar kernel sends a nonzero numerator over
//! zero to the far end of the range, so a parallel ray either never narrows
//! the interval (origin inside the slab) or empties it (origin outside),
//! mirroring what signed infinities do in the usual floating-point
//! formulation of the algorithm.

use crate::fixed::{fx_div, fx_max, fx_min, fx_sub, Fx};
use crate::ray::{Ray, RayV};
use crate::vec3::{v3_inv, Vec3, V3};
use vstd::prelude::*;

verus! {

/// Spec-level mirror of a bounding box.
pub ghost struct AabbV {
    pub min: V3,
    pub max: V3,
}

/// Well-formed boxes have in-range corners, ordered per axis.
pub open spec fn aabb_inv(b: AabbV) -> bool {
    &&& v3_inv(b.min)
    &&& v3_inv(b.max)
    &&& b.min.x <= b.max.x
    &&& b.min.y <= b.max.y
    &&& b.min.z <= b.max.z
}

/// `outer` contains `inner`: lower corner at most as large, upper corner at
/// least as large, on every axis.
pub open spec fn aabb_contains(outer: AabbV, inner: AabbV) -> bool {
    &&& outer.min.x <= inner.min.x
    &&& outer.min.y <= inner.min.y
    &&& outer.min.z <= inner.min.z
    &&& outer.max.x >= inner.max.x
    &&& outer.max.y >= inner.max.y
    &&& outer.max.z >= inner.max.z
}

pub open spec fn aabb_merge(a: AabbV, b: AabbV) -> AabbV {
    AabbV {
        min: V3 {
            x: fx_min(a.min.x, b.min.x),
            y: fx_min(a.min.y, b.min.y),
            z: fx_min(a.min.z, b.min.z),
        },
        max: V3 {
            x: fx_max(a.max.x, b.max.x),
            y: fx_max(a.max.y, b.max.y),
            z: fx_max(a.max.z, b.max.z),
        },
    }
}

/// Parametric interval of one slab, intersected with the running interval:
/// the narrowed `(t_min, t_max)`.
pub open spec fn slab_narrow(lo: int, hi: int, o: int, d: int, t_min: int, t_max: int) -> (
    int,
    int,
) {
    let ta = fx_div(fx_sub(lo, o), d);
    let tb = fx_div(fx_sub(hi, o), d);
    (fx_max(fx_min(ta, tb), t_min), fx_min(fx_max(ta, tb), t_max))
}

/// The slab test: narrow `(t_min, t_max)` by each axis in turn and accept
/// only if the interval never empties (`t_max <= t_min` rejects).
pub open spec fn aabb_hit(b: AabbV, r: RayV, t_min: int, t_max: int) -> bool {
    let (mx0, mx1) = slab_narrow(b.min.x, b.max.x, r.origin.x, r.direction.x, t_min, t_max);
    if mx1 <= mx0 {
        false
    } else {
        let (my0, my1) = slab_narrow(b.min.y, b.max.y, r.origin.y, r.direction.y, mx0, mx1);
        if my1 <= my0 {
            false
        } else {
            let (mz0, mz1) = slab_narrow(b.min.z, b.max.z, r.origin.z, r.direction.z, my0, my1);
            mz0 < mz1
        }
    }
}

#[derive(Clone, Copy, Debug, PartialEq, Eq, Structural)]
pub struct Aabb {
    pub min: Vec3,
    pub max: Vec3,
}

impl View for Aabb {
    type V = AabbV;

    open spec fn view(&self) -> AabbV {
        AabbV { min: self.min@, max: self.max@ }
    }
}

/// One slab's narrowing step of the running interval.
fn narrow_axis(lo: Fx, hi: Fx, o: Fx, d: Fx, t_min: Fx, t_max: Fx) -> (r: (Fx, Fx))
    requires
        lo.inv(),
        hi.inv(),
        o.inv(),
        d.inv(),
    ensures
        (r.0@, r.1@) == slab_narrow(lo@, hi@, o@, d@, t_min@, t_max@),
{
    let ta = lo.sub(o).div(d);
    let tb = hi.sub(o).div(d);
    (ta.min(tb).max(t_min), ta.max(tb).min(t_max))
}

impl Aabb {
    pub open spec fn inv(self) -> bool {
        aabb_inv(self@)
    }

    /// Does the ray cross the box anywhere strictly inside `(t_min, t_max)`?
    pub fn hit(&self, ray: &Ray, t_min: Fx, t_max: Fx) -> (r: bool)
        requires
            self.inv(),
            ray.inv(),
        ensures
            r == aabb_hit(self@, ray@, t_min@, t_max@),
    {
        let (mx0, mx1) = narrow_axis(
            self.min.x,
            self.max.x,
            ray.origin.x,
            ray.direction.x,
            t_min,
            t_max,
        );
        if mx1.le(mx0) {
            return false;
        }
        let (my0, my1) = narrow_axis(
            self.min.y,
            self.max.y,
            ray.origin.y,
            ray.direction.y,
            mx0,
            mx1,
        );
        if my1.le(my0) {
            return false;
        }
        let (mz0, mz1) = narrow_axis(
            self.min.z,
            self.max.z,
            ray.origin.z,
            ray.direction.z,
            my0,
            my1,
        );
        mz0.lt(mz1)
    }

    /// Union bound: component-wise minimum of minima, maximum of maxima.
    pub fn merge(a: Aabb, b: Aabb) -> (r: Aabb)
        requires
            a.inv(),
            b.inv(),
        ensures
            r.inv(),
            r@ == aabb_merge(a@, b@),
    {
        let small = Vec3::new(
            a.min.x.min(b.min.x),
            a.min.y.min(b.min.y),
            a.min.z.min(b.min.z),
        );
        let big = Vec3::new(
            a.max.x.max(b.max.x),
            a.max.y.max(b.max.y),
            a.max.z.max(b.max.z),
        );
        Aabb { min: small, max: big }
    }
}

/// The merged box contains both of its arguments.
pub proof fn lemma_merge_contains(a: AabbV, b: AabbV)
    ensures
        aabb_contains(aabb_merge(a, b), a),
        aabb_contains(aabb_merge(a, b), b),
{
}

/// Merging is commutative.
pub proof fn lemma_merge_commutative(a: AabbV, b: AabbV)
    ensures
        aabb_merge(a, b) == aabb_merge(b, a),
{
}

/// Merging is associative.
pub proof fn lemma_merge_associative(a: AabbV, b: AabbV, c: AabbV)
    ensures
        aabb_merge(aabb_merge(a, b), c) == aabb_merge(a, aabb_merge(b, c)),
{
}

} // verus!
