//! Three-component vector kernel over the fixed-point scalar.
//!
//! A vector is used interchangeably as a point, a direction and a color.
//! Every operation returns a new value; the contracts state each component
//! exactly via the spec-level mirror type [`V3`].

use crate::fixed::{fx_add, fx_div, fx_mul, fx_sqrt, fx_sub, Fx, RAW_MAX, SCALE};
use vstd::prelude::*;

verus! {

/// Spec-level mirror of a vector: raw fixed-point components as integers.
pub ghost struct V3 {
    pub x: int,
    pub y: int,
    pub z: int,
}

pub open spec fn v3_inv(a: V3) -> bool {
    &&& -(RAW_MAX as int) <= a.x <= RAW_MAX as int
    &&& -(RAW_MAX as int) <= a.y <= RAW_MAX as int
    &&& -(RAW_MAX as int) <= a.z <= RAW_MAX as int
}

pub open spec fn v3_add(a: V3, b: V3) -> V3 {
    V3 { x: fx_add(a.x, b.x), y: fx_add(a.y, b.y), z: fx_add(a.z, b.z) }
}

pub open spec fn v3_sub(a: V3, b: V3) -> V3 {
    V3 { x: fx_sub(a.x, b.x), y: fx_sub(a.y, b.y), z: fx_sub(a.z, b.z) }
}

pub open spec fn v3_neg(a: V3) -> V3 {
    V3 { x: -a.x, y: -a.y, z: -a.z }
}

/// Component-wise product.
pub open spec fn v3_mul(a: V3, b: V3) -> V3 {
    V3 { x: fx_mul(a.x, b.x), y: fx_mul(a.y, b.y), z: fx_mul(a.z, b.z) }
}

/// Component-wise quotient.
pub open spec fn v3_div(a: V3, b: V3) -> V3 {
    V3 { x: fx_div(a.x, b.x), y: fx_div(a.y, b.y), z: fx_div(a.z, b.z) }
}

/// Product with a scalar.
pub open spec fn v3_scale(a: V3, k: int) -> V3 {
    V3 { x: fx_mul(a.x, k), y: fx_mul(a.y, k), z: fx_mul(a.z, k) }
}

/// Quotient by a scalar.
pub open spec fn v3_scale_div(a: V3, k: int) -> V3 {
    V3 { x: fx_div(a.x, k), y: fx_div(a.y, k), z: fx_div(a.z, k) }
}

pub open spec fn v3_dot(a: V3, b: V3) -> int {
    fx_add(fx_add(fx_mul(a.x, b.x), fx_mul(a.y, b.y)), fx_mul(a.z, b.z))
}

pub open spec fn v3_cross(a: V3, b: V3) -> V3 {
    V3 {
        x: fx_sub(fx_mul(a.y, b.z), fx_mul(a.z, b.y)),
        y: -fx_sub(fx_mul(a.x, b.z), fx_mul(a.z, b.x)),
        z: fx_sub(fx_mul(a.x, b.y), fx_mul(a.y, b.x)),
    }
}

pub open spec fn v3_squared_length(a: V3) -> int {
    v3_dot(a, a)
}

pub open spec fn v3_length(a: V3) -> int {
    fx_sqrt(v3_squared_length(a))
}

/// Normalization: quotient by the own length (saturating on degenerate
/// inputs, as every scalar operation does).
pub open spec fn v3_unit(a: V3) -> V3 {
    v3_scale_div(a, v3_length(a))
}

/// A valid color: every component within `[0, 1]`.
pub open spec fn v3_color(a: V3) -> bool {
    &&& 0 <= a.x <= SCALE as int
    &&& 0 <= a.y <= SCALE as int
    &&& 0 <= a.z <= SCALE as int
}

/// A three-component fixed-point vector.
#[derive(Clone, Copy, Debug, PartialEq, Eq, Structural)]
pub struct Vec3 {
    pub x: Fx,
    pub y: Fx,
    pub z: Fx,
}

impl View for Vec3 {
    type V = V3;

    open spec fn view(&self) -> V3 {
        V3 { x: self.x@, y: self.y@, z: self.z@ }
    }
}

impl Vec3 {
    pub open spec fn inv(self) -> bool {
        v3_inv(self@)
    }

    pub fn new(x: Fx, y: Fx, z: Fx) -> (r: Vec3)
        requires
            x.inv(),
            y.inv(),
            z.inv(),
        ensures
            r.inv(),
            r@ == (V3 { x: x@, y: y@, z: z@ }),
    {
        Vec3 { x, y, z }
    }

    pub fn zero() -> (r: Vec3)
        ensures
            r.inv(),
            r@ == (V3 { x: 0int, y: 0int, z: 0int }),
    {
        Vec3 { x: Fx::zero(), y: Fx::zero(), z: Fx::zero() }
    }

    /// The all-ones vector, as a spec value.
    pub open spec fn one_spec() -> Vec3 {
        Vec3 { x: Fx { raw: SCALE }, y: Fx { raw: SCALE }, z: Fx { raw: SCALE } }
    }

    pub fn one() -> (r: Vec3)
        ensures
            r.inv(),
            r == Vec3::one_spec(),
            r@ == (V3 { x: SCALE as int, y: SCALE as int, z: SCALE as int }),
    {
        Vec3 { x: Fx::one(), y: Fx::one(), z: Fx::one() }
    }

    /// Component by axis index: 0 is x, 1 is y, 2 is z; any other index is a
    /// contract violation.
    pub fn axis(self, idx: u32) -> (r: Fx)
        requires
            idx < 3,
        ensures
            idx == 0 ==> r == self.x,
            idx == 1 ==> r == self.y,
            idx == 2 ==> r == self.z,
    {
        if idx == 0 {
            self.x
        } else if idx == 1 {
            self.y
        } else {
            self.z
        }
    }

    pub fn add(self, o: Vec3) -> (r: Vec3)
        requires
            self.inv(),
            o.inv(),
        ensures
            r.inv(),
            r@ == v3_add(self@, o@),
    {
        Vec3 { x: self.x.add(o.x), y: self.y.add(o.y), z: self.z.add(o.z) }
    }

    pub fn sub(self, o: Vec3) -> (r: Vec3)
        requires
            self.inv(),
            o.inv(),
        ensures
            r.inv(),
            r@ == v3_sub(self@, o@),
    {
        Vec3 { x: self.x.sub(o.x), y: self.y.sub(o.y), z: self.z.sub(o.z) }
    }

    pub fn neg(self) -> (r: Vec3)
        requires
            self.inv(),
        ensures
            r.inv(),
            r@ == v3_neg(self@),
    {
        Vec3 { x: self.x.neg(), y: self.y.neg(), z: self.z.neg() }
    }

    pub fn mul(self, o: Vec3) -> (r: Vec3)
        requires
            self.inv(),
            o.inv(),
        ensures
            r.inv(),
            r@ == v3_mul(self@, o@),
    {
        Vec3 { x: self.x.mul(o.x), y: self.y.mul(o.y), z: self.z.mul(o.z) }
    }

    pub fn div(self, o: Vec3) -> (r: Vec3)
        requires
            self.inv(),
            o.inv(),
        ensures
            r.inv(),
            r@ == v3_div(self@, o@),
    {
        Vec3 { x: self.x.div(o.x), y: self.y.div(o.y), z: self.z.div(o.z) }
    }

    pub fn scale(self, k: Fx) -> (r: Vec3)
        requires
            self.inv(),
            k.inv(),
        ensures
            r.inv(),
            r@ == v3_scale(self@, k@),
    {
        Vec3 { x: self.x.mul(k), y: self.y.mul(k), z: self.z.mul(k) }
    }

    pub fn scale_div(self, k: Fx) -> (r: Vec3)
        requires
            self.inv(),
            k.inv(),
        ensures
            r.inv(),
            r@ == v3_scale_div(self@, k@),
    {
        Vec3 { x: self.x.div(k), y: self.y.div(k), z: self.z.div(k) }
    }

    pub fn dot(left: Vec3, right: Vec3) -> (r: Fx)
        requires
            left.inv(),
            right.inv(),
        ensures
            r.inv(),
            r@ == v3_dot(left@, right@),
    {
        left.x.mul(right.x).add(left.y.mul(right.y)).add(left.z.mul(right.z))
    }

    pub fn cross(left: Vec3, right: Vec3) -> (r: Vec3)
        requires
            left.inv(),
            right.inv(),
        ensures
            r.inv(),
            r@ == v3_cross(left@, right@),
    {
        Vec3 {
            x: left.y.mul(right.z).sub(left.z.mul(right.y)),
            y: left.x.mul(right.z).sub(left.z.mul(right.x)).neg(),
            z: left.x.mul(right.y).sub(left.y.mul(right.x)),
        }
    }

    pub fn squared_length(self) -> (r: Fx)
        requires
            self.inv(),
        ensures
            r.inv(),
            r@ == v3_squared_length(self@),
    {
        Vec3::dot(self, self)
    }

    pub fn length(self) -> (r: Fx)
        requires
            self.inv(),
        ensures
            r.inv(),
            r@ == v3_length(self@),
            r@ >= 0,
    {
        self.squared_length().sqrt()
    }

    pub fn unit(self) -> (r: Vec3)
        requires
            self.inv(),
        ensures
            r.inv(),
            r@ == v3_unit(self@),
    {
        self.scale_div(self.length())
    }
}

} // verus!
