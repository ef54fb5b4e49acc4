//! Bounding-volume hierarchy: randomized median-split construction and
//! accelerated traversal.
//!
//! Construction picks an axis at random, sorts the objects by the minimum
//! coordinate of their bounding box on that axis, and splits the sorted
//! run at its midpoint, recursing on the halves.  Each node caches the
//! merge of its children's boxes.  A single object becomes a node whose
//! second child is an empty aggregate, which never reports a hit and has
//! no box of its own, so the node behaves exactly like its one object.

use crate::aabb::{aabb_contains, aabb_merge, lemma_merge_contains, Aabb};
use crate::fixed::Fx;
use crate::hit::{
    hit_v_inv, node_hit_spec, object_bbox_spec, object_inv, opt_hit_v, HitRecord, Hitable,
};
use crate::ray::Ray;
use crate::util::rand_axis;
use vstd::prelude::*;
use vstd::seq_lib::group_to_multiset_ensures;

verus! {

/// An interior node: two children and the cached box covering both.
pub struct BvhNode {
    pub bbox: Aabb,
    pub left: Box<Hitable>,
    pub right: Box<Hitable>,
}

pub open spec fn node_inv(n: BvhNode) -> bool {
    &&& n.bbox.inv()
    &&& object_inv(*n.left)
    &&& object_inv(*n.right)
}

/// Every node's cached box is the merge of its children's boxes (or the
/// left child's box alone where the right child is an unbounded empty
/// aggregate).
pub open spec fn boxes_ok(o: Hitable) -> bool
    decreases o,
{
    match o {
        Hitable::Sphere(s) => true,
        Hitable::List(v) => forall|i: int| 0 <= i < v@.len() ==> boxes_ok(#[trigger] v@[i]),
        Hitable::Node(b) => node_boxes_ok(*b),
    }
}

/// The node's cached box is the merge of its children's boxes, and the
/// children keep their own boxes in order.
pub open spec fn node_boxes_ok(n: BvhNode) -> bool
    decreases n,
{
    &&& boxes_ok(*n.left)
    &&& boxes_ok(*n.right)
    &&& object_bbox_spec(*n.left) is Some
    &&& (match object_bbox_spec(*n.right) {
        Some(rb) => n.bbox@ == aabb_merge(object_bbox_spec(*n.left)->Some_0, rb),
        None => n.bbox@ == object_bbox_spec(*n.left)->Some_0 && *n.right is List
            && n.right->List_0@.len() == 0,
    })
}

/// `x` is one of the objects gathered in the tree `o`: nodes are looked
/// through, and an empty aggregate holds nothing.
pub open spec fn contains_obj(o: Hitable, x: Hitable) -> bool
    decreases o,
{
    match o {
        Hitable::Node(b) => contains_obj(*b.left, x) || contains_obj(*b.right, x),
        Hitable::List(v) => v@.len() > 0 && o == x,
        Hitable::Sphere(_) => o == x,
    }
}

/// The tree `o` gathers exactly what the objects of `s` gather.
pub open spec fn gathers(o: Hitable, s: Seq<Hitable>) -> bool {
    forall|x: Hitable|
        #![trigger contains_obj(o, x)]
        contains_obj(o, x) <==> exists|i: int|
            0 <= i < s.len() && contains_obj(#[trigger] s[i], x)
}

/// The two children together gather exactly what the objects of `s` do.
pub open spec fn pair_gathers(l: Hitable, r: Hitable, s: Seq<Hitable>) -> bool {
    forall|x: Hitable|
        #![trigger contains_obj(l, x)]
        (contains_obj(l, x) || contains_obj(r, x)) <==> exists|i: int|
            0 <= i < s.len() && contains_obj(#[trigger] s[i], x)
}

/// A node gathers exactly what the objects of `s` gather.
pub open spec fn node_gathers(n: BvhNode, s: Seq<Hitable>) -> bool {
    pair_gathers(*n.left, *n.right, s)
}

/// Everything a well-formed tree gathers lies inside the tree's box: the
/// justification for pruning a subtree whose cached box the ray misses.
pub proof fn lemma_tree_box_contains(o: Hitable, x: Hitable)
    requires
        boxes_ok(o),
        contains_obj(o, x),
        object_bbox_spec(o) is Some,
    ensures
        object_bbox_spec(x) is Some,
        aabb_contains(object_bbox_spec(o)->Some_0, object_bbox_spec(x)->Some_0),
    decreases o,
{
    match o {
        Hitable::Node(b) => {
            assert(node_boxes_ok(*b));
            assert(boxes_ok(*b.left) && boxes_ok(*b.right));
            assert(object_bbox_spec(o) == Some(b.bbox@));
            match object_bbox_spec(*b.right) {
                Some(rb) => {
                    lemma_merge_contains(object_bbox_spec(*b.left)->Some_0, rb);
                    if contains_obj(*b.left, x) {
                        lemma_tree_box_contains(*b.left, x);
                    } else {
                        lemma_tree_box_contains(*b.right, x);
                    }
                },
                None => {
                    assert(!contains_obj(*b.right, x));
                    lemma_tree_box_contains(*b.left, x);
                },
            }
        },
        _ => {},
    }
}

/// Two sequences with the same elements gather the same objects.
proof fn lemma_contains_perm(a: Seq<Hitable>, b: Seq<Hitable>, x: Hitable)
    requires
        a.to_multiset() == b.to_multiset(),
        exists|i: int| 0 <= i < a.len() && contains_obj(#[trigger] a[i], x),
    ensures
        exists|i: int| 0 <= i < b.len() && contains_obj(#[trigger] b[i], x),
{
    broadcast use group_to_multiset_ensures;

    let i = choose|i: int| 0 <= i < a.len() && contains_obj(#[trigger] a[i], x);
    assert(a.contains(a[i]));
    assert(b.to_multiset().contains(a[i]));
    assert(b.contains(a[i]));
    let j = choose|j: int| 0 <= j < b.len() && b[j] == a[i];
    assert(contains_obj(b[j], x));
}

/// Sort key: the minimum coordinate of the object's box on the axis.
pub open spec fn bbox_key(o: Hitable, axis: u32) -> int {
    match object_bbox_spec(o) {
        Some(b) => if axis == 0 {
            b.min.x
        } else if axis == 1 {
            b.min.y
        } else {
            b.min.z
        },
        None => 0,
    }
}

/// The minimum coordinate of the object's box on the given axis.
fn key_of(o: &Hitable, axis: u32, t0: Fx, t1: Fx) -> (r: Fx)
    requires
        object_inv(*o),
        axis < 3,
    ensures
        r@ == bbox_key(*o, axis),
{
    match o.bounding_box(t0, t1) {
        Some(b) => b.min.axis(axis),
        None => Fx::zero(),
    }
}

/// Index of an object with the least key in `v`.
fn min_key_index(v: &Vec<Hitable>, axis: u32, t0: Fx, t1: Fx) -> (r: usize)
    requires
        v@.len() > 0,
        axis < 3,
        forall|i: int| 0 <= i < v@.len() ==> object_inv(#[trigger] v@[i]),
    ensures
        r < v@.len(),
        forall|i: int|
            0 <= i < v@.len() ==> bbox_key(v@[r as int], axis) <= bbox_key(#[trigger] v@[i], axis),
{
    let mut best: usize = 0;
    let mut i: usize = 1;
    while i < v.len()
        invariant
            0 <= best < i <= v@.len(),
            axis < 3,
            forall|j: int| 0 <= j < v@.len() ==> object_inv(#[trigger] v@[j]),
            forall|j: int|
                0 <= j < i ==> bbox_key(v@[best as int], axis) <= bbox_key(#[trigger] v@[j], axis),
        decreases v@.len() - i,
    {
        if key_of(&v[i], axis, t0, t1).lt(key_of(&v[best], axis, t0, t1)) {
            best = i;
        }
        i = i + 1;
    }
    best
}

/// Sort the objects by their box's minimum coordinate on the axis, by
/// repeated extraction of a least element: the result is a sorted
/// permutation of the input.
fn sort_by_axis(input: Vec<Hitable>, axis: u32, t0: Fx, t1: Fx) -> (out: Vec<Hitable>)
    requires
        axis < 3,
        forall|i: int| 0 <= i < input@.len() ==> object_inv(#[trigger] input@[i]),
    ensures
        out@.len() == input@.len(),
        out@.to_multiset() == input@.to_multiset(),
        forall|i: int| 0 <= i < out@.len() ==> object_inv(#[trigger] out@[i]),
        forall|i: int, j: int|
            0 <= i < j < out@.len() ==> bbox_key(out@[i], axis) <= bbox_key(out@[j], axis),
{
    broadcast use group_to_multiset_ensures;

    let ghost full = input@;
    let mut src = input;
    let mut out: Vec<Hitable> = Vec::new();
    while src.len() > 0
        invariant
            axis < 3,
            out@.len() + src@.len() == full.len(),
            out@.to_multiset().add(src@.to_multiset()) =~= full.to_multiset(),
            forall|j: int| 0 <= j < out@.len() ==> object_inv(#[trigger] out@[j]),
            forall|j: int| 0 <= j < src@.len() ==> object_inv(#[trigger] src@[j]),
            forall|a: int, b: int|
                0 <= a < b < out@.len() ==> bbox_key(out@[a], axis) <= bbox_key(out@[b], axis),
            forall|a: int, b: int|
                #![trigger out@[a], src@[b]]
                0 <= a < out@.len() && 0 <= b < src@.len() ==> bbox_key(out@[a], axis) <= bbox_key(
                    src@[b],
                    axis,
                ),
        decreases src@.len(),
    {
        let j = min_key_index(&src, axis, t0, t1);
        let ghost old_src = src@;
        let ghost old_out = out@;
        let m = src.remove(j);
        out.push(m);
        proof {
            broadcast use vstd::multiset::group_multiset_axioms;

            assert(src@ == old_src.remove(j as int));
            assert(out@ == old_out.push(m));
            vstd::seq_lib::to_multiset_remove(old_src, j as int);
            vstd::seq_lib::to_multiset_build(old_out, m);
            assert(old_src.contains(m));
            vstd::seq_lib::to_multiset_contains(old_src, m);
            assert(old_src.to_multiset().count(m) > 0);
            assert(out@.to_multiset().add(src@.to_multiset()) =~= full.to_multiset());
            assert forall|b: int| 0 <= b < src@.len() implies bbox_key(m, axis) <= bbox_key(
                #[trigger] src@[b],
                axis,
            ) by {
                if b < j {
                    assert(src@[b] == old_src[b]);
                } else {
                    assert(src@[b] == old_src[b + 1]);
                }
            }
        }
    }
    proof {
        assert(out@.to_multiset().add(src@.to_multiset()) =~= out@.to_multiset());
        assert(out@.to_multiset() =~= full.to_multiset());
    }
    out
}

impl BvhNode {
    /// Build a hierarchy over the given objects (at least one, every one
    /// bounded).  The tree gathers exactly the given objects, and every
    /// node's cached box covers its children.
    pub fn new(elements: Vec<Hitable>, t0: Fx, t1: Fx) -> (r: BvhNode)
        requires
            elements@.len() >= 1,
            forall|i: int| 0 <= i < elements@.len() ==> object_inv(#[trigger] elements@[i]),
            forall|i: int| 0 <= i < elements@.len() ==> boxes_ok(#[trigger] elements@[i]),
            forall|i: int|
                0 <= i < elements@.len() ==> object_bbox_spec(#[trigger] elements@[i]) is Some,
        ensures
            node_inv(r),
            node_boxes_ok(r),
            node_gathers(r, elements@),
        decreases elements@.len(), 0int,
    {
        broadcast use group_to_multiset_ensures;

        let ghost orig = elements@;
        let axis = rand_axis();
        let mut elements = sort_by_axis(elements, axis, t0, t1);
        let ghost sorted = elements@;
        proof {
            assert forall|i: int| 0 <= i < sorted.len() implies object_bbox_spec(
                #[trigger] sorted[i],
            ) is Some && boxes_ok(sorted[i]) by {
                assert(sorted.contains(sorted[i]));
                assert(orig.to_multiset().contains(sorted[i]));
                assert(orig.contains(sorted[i]));
                let k = choose|k: int| 0 <= k < orig.len() && orig[k] == sorted[i];
            }
        }
        let len = elements.len();
        let left: Hitable;
        let right: Hitable;
        if len == 1 {
            left = elements.pop().unwrap();
            right = Hitable::List(Vec::new());
            proof {
                assert(left == sorted[0]);
                assert forall|x: Hitable| #![trigger contains_obj(left, x)]
                    (contains_obj(left, x) || contains_obj(right, x)) <==> (exists|i: int|
                    0 <= i < sorted.len() && contains_obj(#[trigger] sorted[i], x)) by {
                    assert(!contains_obj(right, x));
                    if contains_obj(left, x) {
                        assert(contains_obj(sorted[0], x));
                    }
                }
                assert(pair_gathers(left, right, sorted));
            }
        } else if len == 2 {
            right = elements.pop().unwrap();
            left = elements.pop().unwrap();
            proof {
                assert(left == sorted[0] && right == sorted[1]);
                assert forall|x: Hitable| #![trigger contains_obj(left, x)]
                    (contains_obj(left, x) || contains_obj(right, x)) <==> (exists|i: int|
                    0 <= i < sorted.len() && contains_obj(#[trigger] sorted[i], x)) by {
                    if contains_obj(left, x) {
                        assert(contains_obj(sorted[0], x));
                    }
                    if contains_obj(right, x) {
                        assert(contains_obj(sorted[1], x));
                    }
                    if exists|i: int| 0 <= i < sorted.len() && contains_obj(#[trigger] sorted[i], x) {
                        let i = choose|i: int|
                            0 <= i < sorted.len() && contains_obj(#[trigger] sorted[i], x);
                    }
                }
                assert(pair_gathers(left, right, sorted));
            }
        } else {
            let right_elems = elements.split_off(len / 2);
            let ghost h1 = elements@;
            let ghost h2 = right_elems@;
            proof {
                assert forall|i: int| 0 <= i < h1.len() implies object_inv(#[trigger] h1[i])
                    && boxes_ok(h1[i]) && object_bbox_spec(h1[i]) is Some by {
                    assert(h1[i] == sorted[i]);
                }
                assert forall|i: int| 0 <= i < h2.len() implies object_inv(#[trigger] h2[i])
                    && boxes_ok(h2[i]) && object_bbox_spec(h2[i]) is Some by {
                    assert(h2[i] == sorted[i + len / 2]);
                }
            }
            left = build_child(elements, t0, t1);
            right = build_child(right_elems, t0, t1);
            proof {
                assert forall|x: Hitable| #![trigger contains_obj(left, x)]
                    (contains_obj(left, x) || contains_obj(right, x)) <==> (exists|i: int|
                    0 <= i < sorted.len() && contains_obj(#[trigger] sorted[i], x)) by {
                    if contains_obj(left, x) {
                        let i = choose|i: int| 0 <= i < h1.len() && contains_obj(#[trigger] h1[i], x);
                        assert(contains_obj(sorted[i], x));
                    }
                    if contains_obj(right, x) {
                        let i = choose|i: int| 0 <= i < h2.len() && contains_obj(#[trigger] h2[i], x);
                        assert(contains_obj(sorted[i + len / 2], x));
                    }
                    if exists|i: int| 0 <= i < sorted.len() && contains_obj(#[trigger] sorted[i], x) {
                        let i = choose|i: int|
                            0 <= i < sorted.len() && contains_obj(#[trigger] sorted[i], x);
                        if i < len / 2 {
                            assert(h1[i] == sorted[i]);
                            assert(contains_obj(h1[i], x));
                        } else {
                            assert(h2[i - len / 2] == sorted[i]);
                            assert(contains_obj(h2[i - len / 2], x));
                        }
                    }
                }
                assert(pair_gathers(left, right, sorted));
            }
        }
        let box_left = match left.bounding_box(t0, t1) {
            Some(b) => b,
            None => Aabb { min: crate::vec3::Vec3::zero(), max: crate::vec3::Vec3::zero() },
        };
        let bbox = match right.bounding_box(t0, t1) {
            Some(b) => Aabb::merge(box_left, b),
            None => box_left,
        };
        let bl = Box::new(left);
        let br = Box::new(right);
        let r = BvhNode { bbox, left: bl, right: br };
        proof {
            assert(*r.left == left && *r.right == right);
            assert forall|x: Hitable| #![trigger contains_obj(*r.left, x)]
                (contains_obj(*r.left, x) || contains_obj(*r.right, x)) <==> (exists|i: int|
                0 <= i < orig.len() && contains_obj(#[trigger] orig[i], x)) by {
                if contains_obj(left, x) || contains_obj(right, x) {
                    lemma_contains_perm(sorted, orig, x);
                }
                if exists|i: int| 0 <= i < orig.len() && contains_obj(#[trigger] orig[i], x) {
                    lemma_contains_perm(orig, sorted, x);
                }
            }
            assert(node_gathers(r, orig));
        }
        r
    }

    /// Accelerated nearest-hit query through the cached boxes.
    pub fn hit(&self, ray: &Ray, t_min: Fx, t_max: Fx) -> (r: Option<HitRecord>)
        requires
            node_inv(*self),
            ray.inv(),
        ensures
            opt_hit_v(r) == node_hit_spec(*self, ray@, t_min@, t_max@),
            r is Some ==> hit_v_inv(r->Some_0@),
        decreases *self,
    {
        if !self.bbox.hit(ray, t_min, t_max) {
            return None;
        }
        let left_hit = self.left.hit(ray, t_min, t_max);
        let right_hit = self.right.hit(ray, t_min, t_max);
        match (left_hit, right_hit) {
            (Some(l), Some(r2)) => {
                if l.t.lt(r2.t) {
                    Some(l)
                } else {
                    Some(r2)
                }
            },
            (Some(l), None) => Some(l),
            (None, Some(r2)) => Some(r2),
            (None, None) => None,
        }
    }

    pub fn bounding_box(&self, _t0: Fx, _t1: Fx) -> (r: Option<Aabb>)
        ensures
            r == Some(self.bbox),
    {
        Some(self.bbox)
    }
}

/// A child for a split half: the object itself for a run of one, a
/// recursive node otherwise.
fn build_child(objs: Vec<Hitable>, t0: Fx, t1: Fx) -> (r: Hitable)
    requires
        objs@.len() >= 1,
        forall|i: int| 0 <= i < objs@.len() ==> object_inv(#[trigger] objs@[i]),
        forall|i: int| 0 <= i < objs@.len() ==> boxes_ok(#[trigger] objs@[i]),
        forall|i: int| 0 <= i < objs@.len() ==> object_bbox_spec(#[trigger] objs@[i]) is Some,
    ensures
        object_inv(r),
        boxes_ok(r),
        object_bbox_spec(r) is Some,
        gathers(r, objs@),
    decreases objs@.len(), 1int,
{
    let ghost orig = objs@;
    if objs.len() == 1 {
        let mut objs = objs;
        let o = objs.pop().unwrap();
        proof {
            assert(o == orig[0]);
            assert forall|x: Hitable| #![trigger contains_obj(o, x)]
                contains_obj(o, x) <==> (exists|i: int|
                0 <= i < orig.len() && contains_obj(#[trigger] orig[i], x)) by {
                if contains_obj(o, x) {
                    assert(contains_obj(orig[0], x));
                }
                if exists|i: int| 0 <= i < orig.len() && contains_obj(#[trigger] orig[i], x) {
                    let i = choose|i: int|
                        0 <= i < orig.len() && contains_obj(#[trigger] orig[i], x);
                    assert(i == 0);
                }
            }
            assert(gathers(o, orig));
        }
        o
    } else {
        let n = BvhNode::new(objs, t0, t1);
        let bx = Box::new(n);
        let o = Hitable::Node(bx);
        proof {
            assert(boxes_ok(o));
            assert forall|x: Hitable| #![trigger contains_obj(o, x)]
                contains_obj(o, x) <==> (exists|i: int|
                0 <= i < orig.len() && contains_obj(#[trigger] orig[i], x)) by {
                assert(contains_obj(o, x) == (contains_obj(*n.left, x) || contains_obj(
                    *n.right,
                    x,
                )));
            }
            assert(gathers(o, orig));
        }
        o
    }
}

} // verus!
