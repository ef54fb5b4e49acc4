//! Rays: an origin with a direction, and parametrized point evaluation.

use crate::vec3::{v3_add, v3_inv, v3_scale, Vec3, V3};
use vstd::prelude::*;

verus! {

/// Spec-level mirror of a ray.
pub ghost struct RayV {
    pub origin: V3,
    pub direction: V3,
}

pub open spec fn ray_inv(r: RayV) -> bool {
    v3_inv(r.origin) && v3_inv(r.direction)
}

/// The point reached after parameter `t` along the ray.
pub open spec fn ray_at(r: RayV, t: int) -> V3 {
    v3_add(r.origin, v3_scale(r.direction, t))
}

#[derive(Clone, Copy, Debug, PartialEq, Eq, Structural)]
pub struct Ray {
    pub origin: Vec3,
    pub direction: Vec3,
}

impl View for Ray {
    type V = RayV;

    open spec fn view(&self) -> RayV {
        RayV { origin: self.origin@, direction: self.direction@ }
    }
}

impl Ray {
    pub open spec fn inv(self) -> bool {
        ray_inv(self@)
    }

    pub fn point_at(self, t: crate::fixed::Fx) -> (r: Vec3)
        requires
            self.inv(),
            t.inv(),
        ensures
            r.inv(),
            r@ == ray_at(self@, t@),
    {
        self.origin.add(self.direction.scale(t))
    }
}

} // verus!
