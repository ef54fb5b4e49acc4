//! Scene objects and nearest-intersection queries.
//!
//! A scene object is a sphere, a flat aggregate scanned linearly, or a
//! bounding-volume-hierarchy node; `hit` reports the nearest intersection
//! with parameter strictly inside `(t_min, t_max)`, and `bounding_box` a
//! box containing the object.  The contracts mirror each query exactly in
//! spec functions over the fixed-point model.

use crate::aabb::{aabb_hit, aabb_merge, Aabb, AabbV};
use crate::bvh::BvhNode;
use crate::fixed::{fx_add, fx_div, fx_mul, fx_sqrt, fx_sub, mag, Fx, RAW_MAX, SCALE};
use vstd::arithmetic::div_mod::lemma_fundamental_div_mod;
use crate::material::Material;
use crate::ray::{ray_at, Ray, RayV};
use crate::vec3::{v3_add, v3_dot, v3_inv, v3_scale_div, v3_sub, Vec3, V3};
use vstd::prelude::*;

verus! {

/// Spec-level mirror of a hit record.
pub ghost struct HitV {
    pub t: int,
    pub point: V3,
    pub normal: V3,
    pub material: Material,
}

pub open spec fn hit_v_inv(h: HitV) -> bool {
    &&& -(RAW_MAX as int) <= h.t <= RAW_MAX as int
    &&& v3_inv(h.point)
    &&& v3_inv(h.normal)
    &&& h.material.inv()
}

/// The nearest intersection found on an object: parameter, point, outward
/// normal and the material of the surface.
#[derive(Clone, Copy, Debug)]
pub struct HitRecord {
    pub t: Fx,
    pub point: Vec3,
    pub normal: Vec3,
    pub material: Material,
}

impl View for HitRecord {
    type V = HitV;

    open spec fn view(&self) -> HitV {
        HitV { t: self.t@, point: self.point@, normal: self.normal@, material: self.material }
    }
}

pub open spec fn opt_hit_v(r: Option<HitRecord>) -> Option<HitV> {
    match r {
        Some(h) => Some(h@),
        None => None,
    }
}

pub open spec fn opt_box_v(r: Option<Aabb>) -> Option<AabbV> {
    match r {
        Some(b) => Some(b@),
        None => None,
    }
}

/// A sphere primitive.
#[derive(Clone, Copy, Debug)]
pub struct Sphere {
    pub center: Vec3,
    pub radius: Fx,
    pub material: Material,
}

/// The record a sphere reports for parameter `t`.
pub open spec fn sphere_record(sp: Sphere, r: RayV, t: int) -> HitV {
    HitV {
        t,
        point: ray_at(r, t),
        normal: v3_scale_div(v3_sub(ray_at(r, t), sp.center@), sp.radius@),
        material: sp.material,
    }
}

/// Quadratic-root intersection: the discriminant must be strictly positive
/// (tangency is a miss), and the nearer root is preferred.
pub open spec fn sphere_hit_spec(sp: Sphere, r: RayV, t_min: int, t_max: int) -> Option<HitV> {
    let oc = v3_sub(r.origin, sp.center@);
    let a = v3_dot(r.direction, r.direction);
    let b = v3_dot(oc, r.direction);
    let c = fx_sub(v3_dot(oc, oc), fx_mul(sp.radius@, sp.radius@));
    let disc = fx_sub(fx_mul(b, b), fx_mul(a, c));
    if disc > 0 {
        let sq = fx_sqrt(disc);
        let t1 = fx_div(fx_sub(-b, sq), a);
        if t_min < t1 && t1 < t_max {
            Some(sphere_record(sp, r, t1))
        } else {
            let t2 = fx_div(fx_add(-b, sq), a);
            if t_min < t2 && t2 < t_max {
                Some(sphere_record(sp, r, t2))
            } else {
                None
            }
        }
    } else {
        None
    }
}

/// The box around a sphere: center offset by the radius on every axis.
pub open spec fn sphere_bbox_spec(sp: Sphere) -> AabbV {
    let rv = V3 { x: sp.radius@, y: sp.radius@, z: sp.radius@ };
    AabbV { min: v3_sub(sp.center@, rv), max: v3_add(sp.center@, rv) }
}

impl Sphere {
    pub open spec fn inv(self) -> bool {
        &&& self.center.inv()
        &&& self.radius.inv()
        &&& self.radius@ >= 0
        &&& self.material.inv()
    }

    pub fn hit(&self, ray: &Ray, t_min: Fx, t_max: Fx) -> (r: Option<HitRecord>)
        requires
            self.inv(),
            ray.inv(),
        ensures
            opt_hit_v(r) == sphere_hit_spec(*self, ray@, t_min@, t_max@),
            r is Some ==> hit_v_inv(r->Some_0@),
    {
        let oc = ray.origin.sub(self.center);
        let a = Vec3::dot(ray.direction, ray.direction);
        let b = Vec3::dot(oc, ray.direction);
        let c = Vec3::dot(oc, oc).sub(self.radius.mul(self.radius));
        let discriminant = b.mul(b).sub(a.mul(c));
        if discriminant.gt(Fx::zero()) {
            let sq = discriminant.sqrt();
            let temp = b.neg().sub(sq).div(a);
            if temp.gt(t_min) && temp.lt(t_max) {
                let point = ray.point_at(temp);
                return Some(
                    HitRecord {
                        t: temp,
                        point,
                        normal: point.sub(self.center).scale_div(self.radius),
                        material: self.material,
                    },
                );
            }
            let temp = b.neg().add(sq).div(a);
            if temp.gt(t_min) && temp.lt(t_max) {
                let point = ray.point_at(temp);
                return Some(
                    HitRecord {
                        t: temp,
                        point,
                        normal: point.sub(self.center).scale_div(self.radius),
                        material: self.material,
                    },
                );
            }
        }
        None
    }

    pub fn bounding_box(&self, _t0: Fx, _t1: Fx) -> (r: Option<Aabb>)
        requires
            self.inv(),
        ensures
            opt_box_v(r) == Some(sphere_bbox_spec(*self)),
            r is Some && r->Some_0.inv(),
    {
        let rv = Vec3::new(self.radius, self.radius, self.radius);
        Some(Aabb { min: self.center.sub(rv), max: self.center.add(rv) })
    }
}

/// A ray standing on a sphere's surface and pointing outward reports no
/// hit strictly past zero: both roots of the quadratic come out at or
/// below zero, so the acne epsilon holds the surface off.  "On the
/// surface" and "outward" are the computed conditions: the computed
/// `|origin - center|^2 - radius^2` is zero and the computed
/// `(origin - center) . direction` is positive.
pub proof fn lemma_surface_outward_no_hit(sp: Sphere, r: RayV, t_min: int, t_max: int)
    requires
        fx_sub(
            v3_dot(v3_sub(r.origin, sp.center@), v3_sub(r.origin, sp.center@)),
            fx_mul(sp.radius@, sp.radius@),
        ) == 0,
        v3_dot(v3_sub(r.origin, sp.center@), r.direction) > 0,
        t_min > 0,
    ensures
        sphere_hit_spec(sp, r, t_min, t_max) is None,
{
    let oc = v3_sub(r.origin, sp.center@);
    let a = v3_dot(r.direction, r.direction);
    let b = v3_dot(oc, r.direction);
    let c = fx_sub(v3_dot(oc, oc), fx_mul(sp.radius@, sp.radius@));
    crate::fixed::lemma_fx_mul_zero(a);
    assert(fx_mul(a, c) == 0);
    let disc = fx_sub(fx_mul(b, b), fx_mul(a, c));
    assert(mag(r.direction.x) * mag(r.direction.x) >= 0) by (nonlinear_arith);
    assert(mag(r.direction.y) * mag(r.direction.y) >= 0) by (nonlinear_arith);
    assert(mag(r.direction.z) * mag(r.direction.z) >= 0) by (nonlinear_arith);
    assert(a >= 0);
    assert(mag(b) * mag(b) >= 0) by (nonlinear_arith);
    assert(disc == fx_mul(b, b));
    if disc > 0 {
        let sq = fx_sqrt(disc);
        crate::fixed::lemma_sqrt_floor(disc * (SCALE as int));
        // the computed square root of the squared half-coefficient stays
        // at or below the half-coefficient itself
        assert(disc * (SCALE as int) <= b * b) by {
            assert(disc <= (mag(b) * mag(b)) / (SCALE as int));
            lemma_fundamental_div_mod(mag(b) * mag(b), SCALE as int);
            assert(disc * (SCALE as int) <= mag(b) * mag(b));
            assert(mag(b) * mag(b) == b * b) by (nonlinear_arith)
                requires
                    b > 0,
            ;
        }
        assert(sq * sq <= b * b);
        assert(sq <= b) by (nonlinear_arith)
            requires
                sq * sq <= b * b,
                sq >= 0,
                b > 0,
        ;
        let num1 = fx_sub(-b, sq);
        assert(num1 < 0);
        let t1 = fx_div(num1, a);
        assert(t1 <= 0) by {
            if a != 0 {
                assert(mag(num1) * (SCALE as int) >= 0) by (nonlinear_arith);
            }
        }
        assert(!(t_min < t1));
        let num2 = fx_add(-b, sq);
        assert(num2 <= 0);
        let t2 = fx_div(num2, a);
        assert(t2 <= 0) by {
            if a != 0 && num2 != 0 {
                assert(mag(num2) * (SCALE as int) >= 0) by (nonlinear_arith);
            }
        }
        assert(!(t_min < t2));
    }
}

/// A scene object: a primitive, a flat aggregate, or an acceleration node.
pub enum Hitable {
    Sphere(Sphere),
    List(Vec<Hitable>),
    Node(Box<BvhNode>),
}

/// Every primitive and material in the tree is well-formed.
pub open spec fn object_inv(o: Hitable) -> bool
    decreases o,
{
    match o {
        Hitable::Sphere(s) => s.inv(),
        Hitable::List(v) => forall|i: int|
            0 <= i < v@.len() ==> object_inv(#[trigger] v@[i]),
        Hitable::Node(b) => b.bbox.inv() && object_inv(*b.left) && object_inv(*b.right),
    }
}

/// Linear scan of an aggregate from index `i` on, with the best record so
/// far: a candidate must beat the best record's parameter to replace it.
pub open spec fn list_hit_from(
    objs: Seq<Hitable>,
    i: int,
    r: RayV,
    t_min: int,
    t_max: int,
    best: Option<HitV>,
) -> Option<HitV>
    decreases objs, objs.len() - i,
{
    if i < 0 || i >= objs.len() {
        best
    } else {
        let closest = match best {
            Some(h) => h.t,
            None => t_max,
        };
        match object_hit_spec(objs[i], r, t_min, closest) {
            Some(h) => list_hit_from(objs, i + 1, r, t_min, t_max, Some(h)),
            None => list_hit_from(objs, i + 1, r, t_min, t_max, best),
        }
    }
}

/// Node traversal: reject on the cached box, else query both children over
/// the same window and keep the nearer answer.
pub open spec fn node_hit_spec(n: BvhNode, r: RayV, t_min: int, t_max: int) -> Option<HitV>
    decreases n, 1int,
{
    if !aabb_hit(n.bbox@, r, t_min, t_max) {
        None
    } else {
        let lh = object_hit_spec(*n.left, r, t_min, t_max);
        let rh = object_hit_spec(*n.right, r, t_min, t_max);
        match (lh, rh) {
            (Some(l), Some(rr)) => if l.t < rr.t {
                Some(l)
            } else {
                Some(rr)
            },
            (Some(l), None) => Some(l),
            (None, Some(rr)) => Some(rr),
            (None, None) => None,
        }
    }
}

pub open spec fn object_hit_spec(o: Hitable, r: RayV, t_min: int, t_max: int) -> Option<HitV>
    decreases o, 0int,
{
    match o {
        Hitable::Sphere(s) => sphere_hit_spec(s, r, t_min, t_max),
        Hitable::List(v) => list_hit_from(v@, 0, r, t_min, t_max, None),
        Hitable::Node(b) => node_hit_spec(*b, r, t_min, t_max),
    }
}

/// Merge-reduction of the boxes of the objects from index `i` on; no value
/// as soon as one object is unbounded.
pub open spec fn list_bbox_from(objs: Seq<Hitable>, i: int, acc: AabbV) -> Option<AabbV>
    decreases objs, objs.len() - i,
{
    if i < 0 || i >= objs.len() {
        Some(acc)
    } else {
        match object_bbox_spec(objs[i]) {
            Some(b) => list_bbox_from(objs, i + 1, aabb_merge(acc, b)),
            None => None,
        }
    }
}

pub open spec fn object_bbox_spec(o: Hitable) -> Option<AabbV>
    decreases o, 0int,
{
    match o {
        Hitable::Sphere(s) => Some(sphere_bbox_spec(s)),
        Hitable::List(v) => if v@.len() == 0 {
            None
        } else {
            match object_bbox_spec(v@[0]) {
                Some(b0) => list_bbox_from(v@, 1, b0),
                None => None,
            }
        },
        Hitable::Node(b) => Some(b.bbox@),
    }
}

/// Linear scan over an aggregate, shrinking the upper bound to the best
/// parameter found so far.
fn list_hit(objs: &Vec<Hitable>, ray: &Ray, t_min: Fx, t_max: Fx) -> (r: Option<HitRecord>)
    requires
        forall|i: int| 0 <= i < objs@.len() ==> object_inv(#[trigger] objs@[i]),
        ray.inv(),
    ensures
        opt_hit_v(r) == list_hit_from(objs@, 0, ray@, t_min@, t_max@, None),
        r is Some ==> hit_v_inv(r->Some_0@),
    decreases objs@,
{
    let ghost full = objs@;
    let mut best: Option<HitRecord> = None;
    let mut closest: Fx = t_max;
    let mut i: usize = 0;
    while i < objs.len()
        invariant
            0 <= i <= objs@.len(),
            objs@ == full,
            forall|j: int| 0 <= j < objs@.len() ==> object_inv(#[trigger] objs@[j]),
            ray.inv(),
            closest@ == (match opt_hit_v(best) {
                Some(h) => h.t,
                None => t_max@,
            }),
            best is Some ==> hit_v_inv(best->Some_0@),
            list_hit_from(objs@, 0, ray@, t_min@, t_max@, None) == list_hit_from(
                objs@,
                i as int,
                ray@,
                t_min@,
                t_max@,
                opt_hit_v(best),
            ),
        decreases objs@.len() - i,
    {
        let o = &objs[i];
        match o.hit(ray, t_min, closest) {
            Some(h) => {
                closest = h.t;
                best = Some(h);
            },
            None => {},
        }
        i = i + 1;
    }
    best
}

/// Merge-reduction of the boxes of an aggregate's members.
fn list_bbox(objs: &Vec<Hitable>, t0: Fx, t1: Fx) -> (r: Option<Aabb>)
    requires
        forall|i: int| 0 <= i < objs@.len() ==> object_inv(#[trigger] objs@[i]),
    ensures
        opt_box_v(r) == object_bbox_spec(Hitable::List(*objs)),
        r is Some ==> r->Some_0.inv(),
    decreases objs@,
{
    if objs.len() == 0 {
        return None;
    }
    let first = objs[0].bounding_box(t0, t1);
    match first {
        None => None,
        Some(b0) => {
            let mut acc: Aabb = b0;
            let mut i: usize = 1;
            while i < objs.len()
                invariant
                    1 <= i <= objs@.len(),
                    forall|j: int| 0 <= j < objs@.len() ==> object_inv(#[trigger] objs@[j]),
                    acc.inv(),
                    object_bbox_spec(Hitable::List(*objs)) == list_bbox_from(objs@, i as int, acc@),
                decreases objs@.len() - i,
            {
                match objs[i].bounding_box(t0, t1) {
                    None => {
                        return None;
                    },
                    Some(b) => {
                        acc = Aabb::merge(acc, b);
                    },
                }
                i = i + 1;
            }
            Some(acc)
        },
    }
}

impl Hitable {
    pub open spec fn inv(self) -> bool {
        object_inv(self)
    }

    /// The nearest intersection strictly inside `(t_min, t_max)`, if any.
    pub fn hit(&self, ray: &Ray, t_min: Fx, t_max: Fx) -> (r: Option<HitRecord>)
        requires
            self.inv(),
            ray.inv(),
        ensures
            opt_hit_v(r) == object_hit_spec(*self, ray@, t_min@, t_max@),
            r is Some ==> hit_v_inv(r->Some_0@),
        decreases self,
    {
        match self {
            Hitable::Sphere(s) => s.hit(ray, t_min, t_max),
            Hitable::List(v) => list_hit(v, ray, t_min, t_max),
            Hitable::Node(b) => b.hit(ray, t_min, t_max),
        }
    }

    /// A box containing the object, or nothing for an empty aggregate or
    /// one with an unbounded member.
    pub fn bounding_box(&self, t0: Fx, t1: Fx) -> (r: Option<Aabb>)
        requires
            self.inv(),
        ensures
            opt_box_v(r) == object_bbox_spec(*self),
            r is Some ==> r->Some_0.inv(),
        decreases self,
    {
        match self {
            Hitable::Sphere(s) => s.bounding_box(t0, t1),
            Hitable::List(v) => list_bbox(v, t0, t1),
            Hitable::Node(b) => Some(b.bbox),
        }
    }
}

} // verus!

