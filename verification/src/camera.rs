//! Camera: maps normalized image-plane coordinates (plus lens jitter) to
//! world-space rays.
//!
//! Construction derives an orthonormal-ish basis from the look direction
//! and an up hint, and the viewport extents from the vertical field of
//! view, the aspect ratio and the focus distance.  The tangent of the half
//! angle is computed from truncated sine and cosine series; the contracts
//! state the computed values exactly over those series.

use crate::fixed::{fx_add, fx_div, fx_mul, fx_sub, Fx, SCALE};
use crate::ray::Ray;
use crate::util::{in_unit_ball, rand_symmetric};
use crate::vec3::{
    v3_add, v3_cross, v3_scale, v3_squared_length, v3_sub, v3_unit, Vec3, V3,
};
use vstd::prelude::*;

verus! {

/// Radians per degree, in raw units (`pi / 180` scaled).
pub const RAD_PER_DEG: i64 = 1144;

/// Truncated sine series: `x - x^3/6 + x^5/120 - x^7/5040`.
pub open spec fn sin_approx(x: int) -> int {
    let x2 = fx_mul(x, x);
    let x3 = fx_mul(x2, x);
    let x5 = fx_mul(x3, x2);
    let x7 = fx_mul(x5, x2);
    fx_sub(
        fx_add(fx_sub(x, fx_div(x3, 6 * SCALE as int)), fx_div(x5, 120 * SCALE as int)),
        fx_div(x7, 5040 * SCALE as int),
    )
}

/// Truncated cosine series: `1 - x^2/2 + x^4/24 - x^6/720`.
pub open spec fn cos_approx(x: int) -> int {
    let x2 = fx_mul(x, x);
    let x4 = fx_mul(x2, x2);
    let x6 = fx_mul(x4, x2);
    fx_sub(
        fx_add(fx_sub(SCALE as int, fx_div(x2, 2 * SCALE as int)), fx_div(x4, 24 * SCALE as int)),
        fx_div(x6, 720 * SCALE as int),
    )
}

/// Tangent from the two series.
pub open spec fn tan_approx(x: int) -> int {
    fx_div(sin_approx(x), cos_approx(x))
}

/// Half of the viewport height: the tangent of half the vertical field of
/// view (given in degrees).
pub open spec fn half_height_of(v_fov: int) -> int {
    tan_approx(fx_mul(fx_mul(v_fov, RAD_PER_DEG as int), SCALE as int / 2))
}

fn sin_exec(x: Fx) -> (r: Fx)
    requires
        x.inv(),
    ensures
        r.inv(),
        r@ == sin_approx(x@),
{
    let x2 = x.mul(x);
    let x3 = x2.mul(x);
    let x5 = x3.mul(x2);
    let x7 = x5.mul(x2);
    x.sub(x3.div(Fx::from_int(6))).add(x5.div(Fx::from_int(120))).sub(x7.div(Fx::from_int(5040)))
}

fn cos_exec(x: Fx) -> (r: Fx)
    requires
        x.inv(),
    ensures
        r.inv(),
        r@ == cos_approx(x@),
{
    let x2 = x.mul(x);
    let x4 = x2.mul(x2);
    let x6 = x4.mul(x2);
    Fx::one().sub(x2.div(Fx::from_int(2))).add(x4.div(Fx::from_int(24))).sub(
        x6.div(Fx::from_int(720)),
    )
}

#[derive(Clone, Copy, Debug)]
pub struct Camera {
    pub lower_left: Vec3,
    pub horizontal: Vec3,
    pub vertical: Vec3,
    pub origin: Vec3,
    pub lens_radius: Fx,
    pub u: Vec3,
    pub v: Vec3,
    pub w: Vec3,
}

impl Camera {
    pub open spec fn inv(self) -> bool {
        &&& self.lower_left.inv()
        &&& self.horizontal.inv()
        &&& self.vertical.inv()
        &&& self.origin.inv()
        &&& self.lens_radius.inv()
        &&& self.u.inv()
        &&& self.v.inv()
        &&& self.w.inv()
    }

    /// Derive the precomputed basis and viewport from the configuration.
    pub fn new(
        look_from: Vec3,
        look_at: Vec3,
        vup: Vec3,
        v_fov: Fx,
        aspect_ratio: Fx,
        focus_dist: Fx,
        aperture: Fx,
    ) -> (r: Camera)
        requires
            look_from.inv(),
            look_at.inv(),
            vup.inv(),
            v_fov.inv(),
            aspect_ratio.inv(),
            focus_dist.inv(),
            aperture.inv(),
        ensures
            r.inv(),
            r.origin == look_from,
            r.lens_radius@ == fx_div(aperture@, 2 * SCALE as int),
            r.w@ == v3_unit(v3_sub(look_from@, look_at@)),
            r.u@ == v3_unit(v3_cross(vup@, v3_unit(v3_sub(look_from@, look_at@)))),
            r.v@ == v3_cross(r.w@, r.u@),
            r.horizontal@ == v3_scale(
                r.u@,
                fx_mul(
                    fx_mul(2 * SCALE as int, fx_mul(half_height_of(v_fov@), aspect_ratio@)),
                    focus_dist@,
                ),
            ),
            r.vertical@ == v3_scale(
                r.v@,
                fx_mul(fx_mul(2 * SCALE as int, half_height_of(v_fov@)), focus_dist@),
            ),
            r.lower_left@ == v3_sub(
                v3_sub(
                    v3_sub(
                        look_from@,
                        v3_scale(r.u@, fx_mul(fx_mul(half_height_of(v_fov@), aspect_ratio@), focus_dist@)),
                    ),
                    v3_scale(r.v@, fx_mul(half_height_of(v_fov@), focus_dist@)),
                ),
                v3_scale(r.w@, focus_dist@),
            ),
    {
        let lens_radius = aperture.div(Fx::from_int(2));
        let theta = v_fov.mul(Fx::from_raw(RAD_PER_DEG));
        let half_theta = theta.mul(Fx::from_raw(SCALE / 2));
        let half_height = sin_exec(half_theta).div(cos_exec(half_theta));
        let half_width = half_height.mul(aspect_ratio);
        let origin = look_from;
        let w = look_from.sub(look_at).unit();
        let u = Vec3::cross(vup, w).unit();
        let v = Vec3::cross(w, u);
        Camera {
            lower_left: origin.sub(u.scale(half_width.mul(focus_dist))).sub(
                v.scale(half_height.mul(focus_dist)),
            ).sub(w.scale(focus_dist)),
            horizontal: u.scale(Fx::from_int(2).mul(half_width).mul(focus_dist)),
            vertical: v.scale(Fx::from_int(2).mul(half_height).mul(focus_dist)),
            origin,
            u,
            v,
            w,
            lens_radius,
        }
    }

    /// A ray through image-plane coordinates `(s, t)`, its origin jittered
    /// on the lens disk for depth of field.
    pub fn get_ray(&self, s: Fx, t: Fx) -> (r: Ray)
        requires
            self.inv(),
            s.inv(),
            t.inv(),
        ensures
            r.inv(),
            exists|d: V3|
                in_unit_ball(d) && d.z == 0 && r@ == camera_ray_spec(*self, s@, t@, d),
    {
        let dsk = random_in_unit_disk();
        let rd = dsk.scale(self.lens_radius);
        let offset = self.u.scale(rd.x).add(self.v.scale(rd.y));
        let r = Ray {
            origin: self.origin.add(offset),
            direction: self.lower_left.add(self.horizontal.scale(s)).add(
                self.vertical.scale(t),
            ).sub(self.origin).sub(offset),
        };
        proof {
            assert(in_unit_ball(dsk@) && dsk@.z == 0 && r@ == camera_ray_spec(
                *self,
                s@,
                t@,
                dsk@,
            ));
        }
        r
    }
}

/// The ray produced for lens sample `d`.
pub open spec fn camera_ray_spec(c: Camera, s: int, t: int, d: V3) -> crate::ray::RayV {
    let rd = v3_scale(d, c.lens_radius@);
    let offset = v3_add(v3_scale(c.u@, rd.x), v3_scale(c.v@, rd.y));
    crate::ray::RayV {
        origin: v3_add(c.origin@, offset),
        direction: v3_sub(
            v3_sub(
                v3_add(v3_add(c.lower_left@, v3_scale(c.horizontal@, s)), v3_scale(c.vertical@, t)),
                c.origin@,
            ),
            offset,
        ),
    }
}

/// A point strictly inside the unit disk (third component zero), by
/// rejection sampling; the center after a bounded number of misses.
pub fn random_in_unit_disk() -> (r: Vec3)
    ensures
        r.inv(),
        in_unit_ball(r@),
        r@.z == 0,
{
    let mut tries: u32 = 0;
    while tries < 64
        invariant
            true,
        decreases 64 - tries,
    {
        let p = Vec3::new(rand_symmetric(), rand_symmetric(), Fx::zero());
        if Vec3::dot(p, p).lt(Fx::one()) {
            return p;
        }
        tries = tries + 1;
    }
    let c = Vec3::zero();
    proof {
        crate::fixed::lemma_fx_mul_zero(0);
        assert(v3_squared_length(c@) == 0);
    }
    c
}

} // verus!
